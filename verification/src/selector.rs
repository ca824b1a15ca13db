//! Device selectors: `platform:device`, two numbers as the listing shows them.
use vstd::prelude::*;

use crate::text::{chars_of, parse_number};
use crate::text::{decimal, is_digit, number};

verus! {

/// The device that a selector names.
#[derive(Clone, Copy, Debug, PartialEq, Eq, Structural)]
pub struct Selector {
    /// Position of the platform in the driver's list.
    pub platform: usize,
    /// Position of the device in the platform's list.
    pub device: usize,
}

/// Why a text is no selector.
#[derive(Clone, Copy, Debug, PartialEq, Eq, Structural)]
pub enum SelectorError {
    /// The first field is no number.
    Platform,
    /// There is no second field.
    MissingDevice,
    /// The second field is no number.
    Device,
}

/// How many characters stand before the first colon of `s`, or before its end
/// where there is none.
pub open spec fn colon(s: Seq<char>) -> int
    decreases s.len(),
{
    if s.len() == 0 || s[0] == ':' {
        0
    } else {
        1 + colon(s.skip(1))
    }
}

/// The fields of `s`: what stands between its colons.
pub open spec fn fields(s: Seq<char>) -> Seq<Seq<char>>
    decreases s.len(),
{
    if colon(s) == s.len() {
        seq![s]
    } else {
        proof {
            lemma_colon_bounds(s);
        }
        seq![s.take(colon(s))] + fields(s.skip(colon(s) + 1))
    }
}

/// The selector that `s` denotes: its first two fields are numbers, and any
/// further fields do not matter.
pub open spec fn selector(s: Seq<char>) -> Result<Selector, SelectorError> {
    match number(fields(s)[0]) {
        None => Err(SelectorError::Platform),
        Some(platform) => if fields(s).len() < 2 {
            Err(SelectorError::MissingDevice)
        } else {
            match number(fields(s)[1]) {
                None => Err(SelectorError::Device),
                Some(device) => Ok(Selector { platform, device }),
            }
        },
    }
}

/// `k` is where the first field ends if no colon stands before it, and a
/// colon or the end stands at it.
proof fn lemma_colon_is(s: Seq<char>, k: int)
    requires
        0 <= k <= s.len(),
        k < s.len() ==> s[k] == ':',
        forall|j: int| 0 <= j < k ==> s[j] != ':',
    ensures
        colon(s) == k,
    decreases k,
{
    if k > 0 {
        assert(s[0] != ':');
        assert forall|j: int| 0 <= j < k - 1 implies s.skip(1)[j] != ':' by {
            assert(s[j + 1] != ':');
        }
        lemma_colon_is(s.skip(1), k - 1);
    }
}

/// The first field ends within the text, at a colon or at the end.
pub proof fn lemma_colon_bounds(s: Seq<char>)
    ensures
        0 <= colon(s) <= s.len(),
        colon(s) < s.len() ==> s[colon(s)] == ':',
        forall|j: int| 0 <= j < colon(s) ==> s[j] != ':',
    decreases s.len(),
{
    if s.len() > 0 && s[0] != ':' {
        lemma_colon_bounds(s.skip(1));
        assert forall|j: int| 0 <= j < colon(s) implies s[j] != ':' by {
            if j > 0 {
                assert(s.skip(1)[j - 1] != ':');
            }
        }
    }
}

/// The position of the first colon in `chars[from..]`, or the end.
fn find_colon(chars: &Vec<char>, from: usize) -> (at: usize)
    requires
        from <= chars@.len(),
    ensures
        from <= at <= chars@.len(),
        at - from == colon(chars@.skip(from as int)),
{
    let mut at: usize = from;
    while at < chars.len() && chars[at] != ':'
        invariant
            from <= at <= chars@.len(),
            forall|j: int| from <= j < at ==> chars@[j] != ':',
        decreases chars@.len() - at,
    {
        at = at + 1;
    }
    proof {
        lemma_colon_is(chars@.skip(from as int), at - from);
    }
    at
}

/// Reads the selector that `gpu` denotes.
pub fn parse_selector(gpu: &str) -> (result: Result<Selector, SelectorError>)
    ensures
        result == selector(gpu@),
{
    let chars: Vec<char> = chars_of(gpu);
    let first: usize = find_colon(&chars, 0);
    proof {
        assert(chars@.skip(0) =~= gpu@);
        assert(chars@.subrange(0, first as int) =~= fields(gpu@)[0]);
    }
    let platform: usize = match parse_number(&chars, 0, first) {
        None => return Err(SelectorError::Platform),
        Some(platform) => platform,
    };
    if first == chars.len() {
        return Err(SelectorError::MissingDevice);
    }
    let second: usize = find_colon(&chars, first + 1);
    proof {
        let rest = chars@.skip(first + 1);
        lemma_colon_bounds(rest);
        assert(fields(gpu@)[1] == fields(rest)[0]);
        assert(chars@.subrange(first + 1, second as int) =~= fields(rest)[0]);
    }
    match parse_number(&chars, first + 1, second) {
        None => Err(SelectorError::Device),
        Some(device) => Ok(Selector { platform, device }),
    }
}

/// A field, a colon and a rest: the fields are that field and those of the rest.
proof fn lemma_fields_cons(a: Seq<char>, b: Seq<char>)
    requires
        !a.contains(':'),
    ensures
        fields(a + seq![':'] + b) == seq![a] + fields(b),
{
    let s = a + seq![':'] + b;
    assert forall|j: int| 0 <= j < a.len() implies s[j] != ':' by {
        assert(a.contains(a[j]));
    }
    lemma_colon_is(s, a.len() as int);
    assert(s.take(a.len() as int) =~= a);
    assert(s.skip(a.len() as int + 1) =~= b);
}

/// The platform and device numbers of a listing, written with a colon between
/// them, select that platform and that device.
pub proof fn law_listed_numbers_select(platform: usize, device: usize)
    ensures
        selector(decimal(platform as nat) + seq![':'] + decimal(device as nat)) == Ok::<
            Selector,
            SelectorError,
        >(Selector { platform, device }),
{
    crate::text::law_decimal_round_trip(platform);
    crate::text::law_decimal_round_trip(device);
    let p = decimal(platform as nat);
    let d = decimal(device as nat);
    lemma_no_colon(platform as nat);
    lemma_no_colon(device as nat);
    lemma_fields_cons(p, d);
    assert forall|j: int| 0 <= j < d.len() implies d[j] != ':' by {
        assert(d.contains(d[j]));
    }
    lemma_colon_is(d, d.len() as int);
}

/// What follows a second colon does not change what is selected.
pub proof fn law_further_fields_ignored(s: Seq<char>, rest: Seq<char>)
    requires
        fields(s).len() >= 2,
    ensures
        selector(s + seq![':'] + rest) == selector(s),
{
    lemma_colon_bounds(s);
    let k = colon(s);
    let a = s.take(k);
    let b = s.skip(k + 1);
    let t = s + seq![':'] + rest;
    assert(!a.contains(':'));
    assert(t =~= a + seq![':'] + (b + seq![':'] + rest));
    lemma_fields_cons(a, b + seq![':'] + rest);
    lemma_colon_bounds(b);
    let c = b.take(colon(b));
    assert(!c.contains(':'));
    if colon(b) == b.len() {
        assert(c =~= b);
        lemma_fields_cons(c, rest);
    } else {
        let e = b.skip(colon(b) + 1);
        assert(b + seq![':'] + rest =~= c + seq![':'] + (e + seq![':'] + rest));
        lemma_fields_cons(c, e + seq![':'] + rest);
    }
    assert(fields(s) == seq![a] + fields(b));
    assert(fields(t)[0] == a && fields(t)[1] == c);
    assert(fields(s)[0] == a && fields(s)[1] == c);
}

proof fn lemma_no_colon(n: nat)
    ensures
        !decimal(n).contains(':'),
{
    crate::text::lemma_decimal_digits(n);
    assert forall|i: int| 0 <= i < decimal(n).len() implies decimal(n)[i] != ':' by {
        assert(is_digit(decimal(n)[i]));
    }
}

/// Reading a selector is reading the number before the first colon and the
/// number between that and the next colon or the end; the first of the two that
/// is wrong is reported, and a missing colon where the first is right.
pub proof fn law_selector_by_fields(a: Seq<char>, b: Seq<char>, rest: Seq<char>)
    requires
        forall|i: int| 0 <= i < a.len() ==> #[trigger] a[i] != ':',
        forall|i: int| 0 <= i < b.len() ==> #[trigger] b[i] != ':',
    ensures
        selector(a) == Err::<Selector, SelectorError>(
            if number(a) is None {
                SelectorError::Platform
            } else {
                SelectorError::MissingDevice
            },
        ),
        selector(a + seq![':'] + b) == match (number(a), number(b)) {
            (None, _) => Err::<Selector, SelectorError>(SelectorError::Platform),
            (_, None) => Err::<Selector, SelectorError>(SelectorError::Device),
            (Some(p), Some(d)) => Ok::<Selector, SelectorError>(
                Selector { platform: p, device: d },
            ),
        },
        selector(a + seq![':'] + b + seq![':'] + rest) == selector(a + seq![':'] + b),
{
    lemma_colon_is(a, a.len() as int);
    lemma_colon_is(b, b.len() as int);
    assert(!a.contains(':'));
    lemma_fields_cons(a, b);
    let s = a + seq![':'] + b;
    assert(fields(b) =~= seq![b]);
    assert(fields(s)[0] == a && fields(s)[1] == b);
    law_further_fields_ignored(s, rest);
}

} // verus!
