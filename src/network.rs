use vstd::prelude::*;

verus! {

/// What the host reports about one network interface, as raw text.
pub struct InterfaceStatus {
    /// The interface's name.
    pub name: String,
    /// Its operational state, such as "up" or "down".
    pub operstate: String,
    /// Its carrier flag: "1" when a link is detected.
    pub carrier: String,
}

/// Unicode `White_Space`, the set that `char::is_whitespace` and `str::trim` use.
pub open spec fn is_white_space(c: char) -> bool {
    let u = c as u32;
    (0x9 <= u && u <= 0xd) || u == 0x20 || u == 0x85 || u == 0xa0 || u == 0x1680 || (0x2000 <= u
        && u <= 0x200a) || u == 0x2028 || u == 0x2029 || u == 0x202f || u == 0x205f || u == 0x3000
}

/// The name of the loopback interface.
pub open spec fn is_loopback_name(name: Seq<char>) -> bool {
    name == seq!['l', 'o']
}

/// An operational state counts as up when it contains "up".
pub open spec fn operstate_is_up(operstate: Seq<char>) -> bool {
    exists|i: int|
        0 <= i && i + 1 < operstate.len() && #[trigger] operstate[i] == 'u' && operstate[i + 1]
            == 'p'
}

/// A carrier flag reads "1" once surrounding white space is trimmed: exactly
/// one character is not white space, and it is '1'.
pub open spec fn carrier_is_set(carrier: Seq<char>) -> bool {
    exists|i: int|
        0 <= i < carrier.len() && carrier[i] == '1' && forall|j: int|
            0 <= j < carrier.len() && j != i ==> is_white_space(#[trigger] carrier[j])
}

/// An interface worth monitoring: not loopback, up, and with a carrier.
pub open spec fn qualifies(status: InterfaceStatus) -> bool {
    !is_loopback_name(status.name@) && operstate_is_up(status.operstate@) && carrier_is_set(
        status.carrier@,
    )
}

/// Whether `c` is white space in the sense of `is_white_space`.
pub fn white_space(c: char) -> (r: bool)
    ensures
        r == is_white_space(c),
{
    let u = c as u32;
    (0x9 <= u && u <= 0xd) || u == 0x20 || u == 0x85 || u == 0xa0 || u == 0x1680 || (0x2000 <= u
        && u <= 0x200a) || u == 0x2028 || u == 0x2029 || u == 0x202f || u == 0x205f || u == 0x3000
}

/// Whether `name` is the loopback interface, "lo".
pub fn is_loopback(name: &str) -> (r: bool)
    ensures
        r == is_loopback_name(name@),
{
    let n = name.unicode_len();
    if n != 2 {
        return false;
    }
    let r = name.get_char(0) == 'l' && name.get_char(1) == 'o';
    assert(r ==> name@ =~= seq!['l', 'o']);
    r
}

/// Whether an operational state reads as up: it contains "up".
pub fn is_up(operstate: &str) -> (r: bool)
    ensures
        r == operstate_is_up(operstate@),
{
    let n = operstate.unicode_len();
    if n < 2 {
        return false;
    }
    let mut i: usize = 0;
    while i < n - 1
        invariant
            n == operstate@.len(),
            2 <= n,
            i <= n - 1,
            forall|j: int|
                0 <= j < i && j + 1 < n ==> !(#[trigger] operstate@[j] == 'u' && operstate@[j + 1]
                    == 'p'),
        decreases n - i,
    {
        if operstate.get_char(i) == 'u' && operstate.get_char(i + 1) == 'p' {
            return true;
        }
        i = i + 1;
    }
    proof {
        assert forall|j: int|
            0 <= j && j + 1 < operstate@.len() implies !(#[trigger] operstate@[j] == 'u'
            && operstate@[j + 1] == 'p') by {
            assert(j < i);
        }
    }
    false
}

/// Whether a carrier flag reads "1", white space around it aside.
pub fn has_carrier(carrier: &str) -> (r: bool)
    ensures
        r == carrier_is_set(carrier@),
{
    let n = carrier.unicode_len();
    let mut one_at: Option<usize> = None;
    let mut i: usize = 0;
    while i < n
        invariant
            n == carrier@.len(),
            i <= n,
            match one_at {
                None => forall|j: int| 0 <= j < i ==> is_white_space(#[trigger] carrier@[j]),
                Some(k) => k < i && carrier@[k as int] == '1' && forall|j: int|
                    0 <= j < i && j != k ==> is_white_space(#[trigger] carrier@[j]),
            },
        decreases n - i,
    {
        let c = carrier.get_char(i);
        if !white_space(c) {
            if one_at.is_some() || c != '1' {
                assert(!is_white_space('1'));
                return false;
            }
            one_at = Some(i);
        }
        i = i + 1;
    }
    match one_at {
        Some(k) => true,
        None => {
            assert(!is_white_space('1'));
            false
        },
    }
}

/// The interface to monitor: the first of `interfaces`, in their order, that
/// is not loopback, is up and has a carrier; `None` when none qualifies.
pub fn select_default_interface(interfaces: &Vec<InterfaceStatus>) -> (r: Option<String>)
    ensures
        r is None <==> forall|k: int| 0 <= k < interfaces@.len() ==> !qualifies(#[trigger] interfaces@[k]),
        r matches Some(name) ==> exists|k: int|
            0 <= k < interfaces@.len() && qualifies(interfaces@[k]) && name@ == interfaces@[k].name@
                && forall|j: int| 0 <= j < k ==> !qualifies(#[trigger] interfaces@[j]),
{
    let mut k: usize = 0;
    while k < interfaces.len()
        invariant
            k <= interfaces@.len(),
            forall|j: int| 0 <= j < k ==> !qualifies(#[trigger] interfaces@[j]),
        decreases interfaces@.len() - k,
    {
        let status = &interfaces[k];
        if !is_loopback(status.name.as_str()) && is_up(status.operstate.as_str()) && has_carrier(
            status.carrier.as_str(),
        ) {
            return Some(status.name.clone());
        }
        k = k + 1;
    }
    None
}

/// `s` without its trailing white space.
pub open spec fn trim_end_white_space(s: Seq<char>) -> Seq<char>
    decreases s.len(),
{
    if s.len() > 0 && is_white_space(s.last()) {
        trim_end_white_space(s.drop_last())
    } else {
        s
    }
}

/// One of the ASCII digits '0' to '9'.
pub open spec fn is_ascii_digit(c: char) -> bool {
    0x30 <= c as u32 && c as u32 <= 0x39
}

/// The value of an ASCII digit.
pub open spec fn digit_value(c: char) -> nat {
    (c as u32 - 0x30) as nat
}

/// The number that a string of ASCII digits spells in base ten.
pub open spec fn decimal_value(s: Seq<char>) -> nat
    decreases s.len(),
{
    if s.len() == 0 {
        0
    } else {
        decimal_value(s.drop_last()) * 10 + digit_value(s.last())
    }
}

/// The digits of a counter's text: trailing white space and one leading '+'
/// are not part of them.
pub open spec fn counter_digits(text: Seq<char>) -> Seq<char> {
    let t = trim_end_white_space(text);
    if t.len() > 0 && t[0] == '+' {
        t.drop_first()
    } else {
        t
    }
}

/// Text that holds a counter: at least one digit, nothing but digits, and a
/// value that fits in 64 bits.
pub open spec fn is_counter_text(text: Seq<char>) -> bool {
    let d = counter_digits(text);
    &&& d.len() > 0
    &&& forall|i: int| 0 <= i < d.len() ==> is_ascii_digit(#[trigger] d[i])
    &&& decimal_value(d) <= u64::MAX
}

/// A prefix of a string of digits never spells a larger number.
proof fn lemma_decimal_value_prefix(s: Seq<char>, k: int)
    requires
        0 <= k <= s.len(),
        forall|i: int| 0 <= i < s.len() ==> is_ascii_digit(#[trigger] s[i]),
    ensures
        decimal_value(s.take(k)) <= decimal_value(s),
    decreases s.len(),
{
    if k == s.len() {
        assert(s.take(k) =~= s);
    } else {
        let t = s.drop_last();
        assert(t.take(k) =~= s.take(k));
        lemma_decimal_value_prefix(t, k);
    }
}

/// Reads a cumulative byte counter from its decimal text, as the host writes
/// it: trailing white space is ignored, one leading '+' is accepted, and text
/// that is empty, holds anything but digits, or overflows 64 bits gives `None`.
pub fn parse_counter(text: &str) -> (r: Option<u64>)
    ensures
        r is Some <==> is_counter_text(text@),
        r matches Some(v) ==> v == decimal_value(counter_digits(text@)),
{
    let n = text.unicode_len();
    let mut end: usize = n;
    assert(text@.take(n as int) =~= text@);
    while end > 0 && white_space(text.get_char(end - 1))
        invariant
            end <= n == text@.len(),
            trim_end_white_space(text@.take(end as int)) == trim_end_white_space(text@),
        decreases end,
    {
        assert(text@.take(end as int).drop_last() =~= text@.take(end - 1));
        end = end - 1;
    }
    let ghost trimmed = text@.take(end as int);
    assert(trim_end_white_space(text@) == trimmed);
    let mut start: usize = 0;
    if end > 0 && text.get_char(0) == '+' {
        start = 1;
    }
    let ghost digits = text@.subrange(start as int, end as int);
    assert(counter_digits(text@) =~= digits);
    if start == end {
        return None;
    }
    let mut v: u64 = 0;
    let mut i: usize = start;
    assert(text@.subrange(start as int, start as int) =~= Seq::<char>::empty());
    while i < end
        invariant
            start <= i <= end <= n == text@.len(),
            start < end,
            digits == text@.subrange(start as int, end as int),
            counter_digits(text@) == digits,
            v == decimal_value(text@.subrange(start as int, i as int)),
            forall|j: int| start <= j < i ==> is_ascii_digit(#[trigger] text@[j]),
        decreases end - i,
    {
        let c = text.get_char(i);
        let code = c as u32;
        if code < 0x30 || code > 0x39 {
            assert(digits[i - start] == text@[i as int]);
            assert(!is_ascii_digit(digits[i - start]));
            return None;
        }
        let d = (code - 0x30) as u64;
        let ghost next = text@.subrange(start as int, i + 1);
        assert(next.drop_last() =~= text@.subrange(start as int, i as int));
        if v > (u64::MAX - d) / 10 {
            assert(v * 10 + d > u64::MAX) by (nonlinear_arith)
                requires
                    v > (u64::MAX - d) / 10,
                    d <= 9,
            ;
            proof {
                if is_counter_text(text@) {
                    assert(counter_digits(text@) == digits);
                    assert forall|j: int| 0 <= j < digits.len() implies is_ascii_digit(
                        #[trigger] digits[j],
                    ) by {
                        assert(counter_digits(text@)[j] == digits[j]);
                    }
                    assert(digits.take(i + 1 - start) =~= next);
                    lemma_decimal_value_prefix(digits, i + 1 - start);
                }
            }
            return None;
        }
        assert(v * 10 + d <= u64::MAX) by (nonlinear_arith)
            requires
                v <= (u64::MAX - d) / 10,
                d <= 9,
        ;
        v = v * 10 + d;
        i = i + 1;
    }
    assert(text@.subrange(start as int, i as int) =~= digits);
    assert forall|j: int| 0 <= j < digits.len() implies is_ascii_digit(#[trigger] digits[j]) by {
        assert(digits[j] == text@[start + j]);
    }
    Some(v)
}

} // verus!
