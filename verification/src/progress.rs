//! Reading the progress of the query engine off its status line.

use crate::text;
use vstd::prelude::*;

verus! {

/// The digits that a text ends with.
pub open spec fn last_digits(s: Seq<char>) -> Seq<char>
    decreases s.len(),
{
    if s.len() > 0 && text::is_digit(s.last()) {
        last_digits(s.drop_last()).push(s.last())
    } else {
        Seq::empty()
    }
}

/// The digits that a text begins with.
pub open spec fn first_digits(s: Seq<char>) -> Seq<char>
    decreases s.len(),
{
    if s.len() > 0 && text::is_digit(s[0]) {
        seq![s[0]] + first_digits(s.drop_first())
    } else {
        Seq::empty()
    }
}

/// The two numbers around a slash, if the second is not zero: "3" and "12" in
/// "Reading paper 3/12".
pub open spec fn fraction_at(status: Seq<char>, slash: int) -> Option<(Seq<char>, Seq<char>)> {
    let above = last_digits(status.take(slash));
    let below = first_digits(status.skip(slash + 1));
    if above.len() > 0 && text::digits_value(below) > 0 {
        Some((above, below))
    } else {
        None
    }
}

/// The first fraction in a status. Other slashes are passed over.
pub open spec fn fraction_in(status: Seq<char>) -> Option<(Seq<char>, Seq<char>)>
    decreases status.len(),
{
    match text::place_of(status, "/"@) {
        Some(slash) => match fraction_at(status, slash) {
            Some(fraction) => Some(fraction),
            None => {
                proof {
                    reveal_strlit("/");
                    text::lemma_place_of(status, "/"@);
                }
                fraction_in(status.skip(slash + 1))
            },
        },
        None => None,
    }
}

fn read_last_digits(chars: &Vec<char>, start: usize, to: usize) -> (r: String)
    requires
        start <= to <= chars@.len(),
    ensures
        r@ == last_digits(chars@.skip(start as int).take(to - start)),
{
    let ghost part = chars@.skip(start as int);
    let mut from: usize = to;
    assert(chars@.subrange(to as int, to as int) =~= Seq::empty());
    while from > start && text::decimal_digit(chars[from - 1])
        invariant
            start <= from <= to <= chars@.len(),
            part == chars@.skip(start as int),
            last_digits(part.take(to - start)) == last_digits(part.take(from - start))
                + chars@.subrange(from as int, to as int),
        decreases from,
    {
        let ghost whole = part.take(from - start);
        assert(whole.drop_last() =~= part.take(from - start - 1));
        assert(last_digits(whole) + chars@.subrange(from as int, to as int) =~= last_digits(
            part.take(from - start - 1),
        ) + chars@.subrange(from - 1, to as int));
        from = from - 1;
    }
    assert(last_digits(part.take(from - start)) =~= Seq::empty());
    let r = text::text_between(chars, from, to);
    assert(r@ =~= last_digits(part.take(to - start)));
    r
}

fn read_first_digits(chars: &Vec<char>, from: usize) -> (r: String)
    requires
        from <= chars@.len(),
    ensures
        r@ == first_digits(chars@.skip(from as int)),
{
    let mut to: usize = from;
    while to < chars.len() && text::decimal_digit(chars[to])
        invariant
            from <= to <= chars@.len(),
            first_digits(chars@.skip(from as int)) == chars@.subrange(from as int, to as int)
                + first_digits(chars@.skip(to as int)),
        decreases chars@.len() - to,
    {
        assert(chars@.skip(to as int).drop_first() =~= chars@.skip(to + 1));
        assert(chars@.subrange(from as int, to as int) + first_digits(chars@.skip(to as int))
            =~= chars@.subrange(from as int, to + 1) + first_digits(chars@.skip(to + 1)));
        to = to + 1;
    }
    assert(first_digits(chars@.skip(to as int)) =~= Seq::empty());
    let r = text::text_between(chars, from, to);
    assert(r@ =~= first_digits(chars@.skip(from as int)));
    r
}

fn above_zero(digits: &str) -> (r: bool)
    requires
        text::all_digits(digits@),
    ensures
        r == (text::digits_value(digits@) > 0),
{
    let chars = text::chars_of(digits);
    let mut i: usize = 0;
    let mut r = false;
    while i < chars.len()
        invariant
            i <= chars@.len(),
            chars@ == digits@,
            text::all_digits(digits@),
            r == (text::digits_value(digits@.take(i as int)) > 0),
        decreases chars@.len() - i,
    {
        assert(digits@.take(i + 1).drop_last() =~= digits@.take(i as int));
        assert(text::is_digit(digits@[i as int]));
        if chars[i] != '0' {
            r = true;
        }
        i = i + 1;
    }
    assert(digits@.take(digits@.len() as int) =~= digits@);
    r
}

proof fn lemma_first_digits(s: Seq<char>)
    ensures
        text::all_digits(first_digits(s)),
    decreases s.len(),
{
    if s.len() > 0 && text::is_digit(s[0]) {
        lemma_first_digits(s.drop_first());
        assert(first_digits(s).drop_first() =~= first_digits(s.drop_first()));
        assert forall|i: int| 0 <= i < first_digits(s).len() implies text::is_digit(
            #[trigger] first_digits(s)[i],
        ) by {
            if i > 0 {
                assert(first_digits(s)[i] == first_digits(s.drop_first())[i - 1]);
            }
        }
    }
}

fn read_fraction(chars: &Vec<char>, from: usize, slash: usize) -> (r: Option<(String, String)>)
    requires
        from <= slash < chars@.len(),
    ensures
        r.deep_view() == fraction_at(chars@.skip(from as int), slash - from),
{
    let ghost rest = chars@.skip(from as int);
    let n: usize = chars.len();
    assert(slash < n);
    let above = read_last_digits(chars, from, slash);
    let below = read_first_digits(chars, slash + 1);
    assert(rest.skip(slash - from + 1) =~= chars@.skip(slash + 1));
    proof {
        lemma_first_digits(chars@.skip(slash + 1));
    }
    if !above.as_str().is_empty() && above_zero(below.as_str()) {
        Some((above, below))
    } else {
        None
    }
}

/// The first fraction in a status, in digits: how much is done, and of how much.
pub fn parse_frac(status: &str) -> (r: Option<(String, String)>)
    ensures
        r.deep_view() == fraction_in(status@),
{
    let chars = text::chars_of(status);
    let n: usize = chars.len();
    let mut from: usize = 0;
    let mut i: usize = 0;
    proof {
        reveal_strlit("/");
        assert(status@.skip(0) =~= status@);
    }
    while i < n
        invariant
            from <= i <= n,
            n == chars@.len(),
            chars@ == status@,
            "/"@ == seq!['/'],
            fraction_in(status@) == fraction_in(status@.skip(from as int)),
            match text::place_of(status@.skip(i as int), "/"@) {
                Some(k) => text::place_of(status@.skip(from as int), "/"@) == Some(k + (i - from)),
                None => text::place_of(status@.skip(from as int), "/"@) is None,
            },
        decreases n - i,
    {
        let ghost rest = status@.skip(from as int);
        let ghost here = status@.skip(i as int);
        assert(here.drop_first() =~= status@.skip(i + 1));
        if chars[i] == '/' {
            assert(here.subrange(0, 1) =~= "/"@);
            assert(text::place_of(here, "/"@) == Some(0int));
            let found = read_fraction(&chars, from, i);
            if found.is_some() {
                return found;
            }
            assert(rest.skip(i - from + 1) =~= status@.skip(i + 1));
            from = i + 1;
        } else {
            assert(!"/"@.is_prefix_of(here)) by {
                if "/"@.is_prefix_of(here) {
                    assert(here.subrange(0, 1)[0] == '/');
                }
            }
        }
        i = i + 1;
    }
    assert(!"/"@.is_prefix_of(status@.skip(n as int)));
    None
}

// ---- laws -----------------------------------------------------------------

proof fn lemma_last_digits(s: Seq<char>)
    ensures
        text::all_digits(last_digits(s)),
        last_digits(s).is_suffix_of(s),
    decreases s.len(),
{
    if s.len() > 0 && text::is_digit(s.last()) {
        lemma_last_digits(s.drop_last());
        let d = last_digits(s.drop_last());
        assert forall|i: int| 0 <= i < last_digits(s).len() implies text::is_digit(
            #[trigger] last_digits(s)[i],
        ) by {
            if i < d.len() {
                assert(last_digits(s)[i] == d[i]);
            }
        }
        let n = s.len() - 1;
        assert(s.drop_last().subrange(n - d.len(), n) =~= d);
        assert(s.subrange(n - d.len(), n + 1) =~= d.push(s.last())) by {
            assert forall|k: int| 0 <= k < d.len() implies s.subrange(n - d.len(), n + 1)[k]
                == d[k] by {
                assert(s.drop_last().subrange(n - d.len(), n)[k] == d[k]);
            }
        }
    } else {
        assert(s.subrange(s.len() as int, s.len() as int) =~= Seq::empty());
    }
}

proof fn lemma_first_digits_stand(s: Seq<char>)
    ensures
        first_digits(s).is_prefix_of(s),
    decreases s.len(),
{
    if s.len() > 0 && text::is_digit(s[0]) {
        lemma_first_digits_stand(s.drop_first());
        let d = first_digits(s.drop_first());
        assert(s.drop_first().subrange(0, d.len() as int) =~= d);
        assert forall|k: int| 0 <= k < first_digits(s).len() implies s.subrange(
            0,
            first_digits(s).len() as int,
        )[k] == first_digits(s)[k] by {
            if k > 0 {
                assert(s.drop_first().subrange(0, d.len() as int)[k - 1] == d[k - 1]);
            }
        }
        assert(s.subrange(0, first_digits(s).len() as int) =~= first_digits(s));
    } else {
        assert(s.subrange(0, 0) =~= Seq::empty());
    }
}

/// The digits before a place do not reach back beyond a slash.
proof fn lemma_slash_parts_digits(status: Seq<char>, from: int, to: int)
    requires
        0 < from <= to <= status.len(),
        status[from - 1] == '/',
    ensures
        last_digits(status.skip(from).take(to - from)) == last_digits(status.take(to)),
    decreases to - from,
{
    let part = status.skip(from).take(to - from);
    let whole = status.take(to);
    assert(whole.last() == status[to - 1]);
    if to == from {
        assert(last_digits(part) =~= Seq::empty());
        assert(last_digits(whole) =~= Seq::empty());
    } else {
        assert(part.last() == status[to - 1]);
        assert(part.drop_last() =~= status.skip(from).take(to - 1 - from));
        assert(whole.drop_last() =~= status.take(to - 1));
        lemma_slash_parts_digits(status, from, to - 1);
    }
}

/// A slash has the same numbers around it in a status as in what follows an earlier
/// slash.
proof fn lemma_fraction_after_slash(status: Seq<char>, from: int, slash: int)
    requires
        0 < from <= slash < status.len(),
        status[from - 1] == '/',
    ensures
        fraction_at(status.skip(from), slash - from) == fraction_at(status, slash),
{
    lemma_slash_parts_digits(status, from, slash);
    assert(status.skip(from).skip(slash - from + 1) =~= status.skip(slash + 1));
}

/// No slash before the given place has a fraction around it.
pub open spec fn no_fraction_before(status: Seq<char>, to: int) -> bool {
    forall|j: int| 0 <= j < to && status[j] == '/' ==> (#[trigger] fraction_at(status, j)) is None
}

proof fn lemma_no_fraction_before(status: Seq<char>, first: int, n: int)
    requires
        text::place_of(status, "/"@) == Some(first),
        fraction_at(status, first) is None,
        0 <= n <= status.len() - first - 1,
        no_fraction_before(status.skip(first + 1), n),
    ensures
        no_fraction_before(status, first + 1 + n),
{
    reveal_strlit("/");
    text::lemma_place_of(status, "/"@);
    let from = first + 1;
    let rest = status.skip(from);
    assert(status.skip(first).subrange(0, 1)[0] == '/');
    assert forall|j: int| 0 <= j < from + n && status[j] == '/' implies (#[trigger] fraction_at(
        status,
        j,
    )) is None by {
        if j >= from {
            lemma_fraction_after_slash(status, from, j);
            assert(fraction_at(rest, j - from) is None);
        } else if j < first {
            assert(status.skip(j).subrange(0, 1) =~= "/"@);
            assert(!"/"@.is_prefix_of(status.skip(j)));
        }
    }
}

/// The fraction that is read off a status stands at a slash, and at none before it is
/// there one; a status without one has none at any slash.
pub proof fn law_fraction_is_the_first(status: Seq<char>)
    ensures
        match fraction_in(status) {
            Some(fraction) => exists|slash: int|
                0 <= slash < status.len() && status[slash] == '/' && (#[trigger] fraction_at(
                    status,
                    slash,
                )) == Some(fraction) && no_fraction_before(status, slash),
            None => no_fraction_before(status, status.len() as int),
        },
    decreases status.len(),
{
    reveal_strlit("/");
    text::lemma_place_of(status, "/"@);
    match text::place_of(status, "/"@) {
        Some(first) => {
            assert(status.skip(first).subrange(0, 1)[0] == '/');
            assert(status[first] == '/');
            let from = first + 1;
            let rest = status.skip(from);
            if fraction_at(status, first) is None {
                law_fraction_is_the_first(rest);
                match fraction_in(rest) {
                    Some(fraction) => {
                        let k = choose|k: int|
                            0 <= k < rest.len() && rest[k] == '/' && (#[trigger] fraction_at(
                                rest,
                                k,
                            )) == Some(fraction) && no_fraction_before(rest, k);
                        lemma_no_fraction_before(status, first, k);
                        assert(status[from + k] == '/');
                        lemma_fraction_after_slash(status, from, from + k);
                        assert(fraction_at(status, from + k) == Some(fraction));
                    },
                    None => {
                        lemma_no_fraction_before(status, first, rest.len() as int);
                    },
                }
            } else {
                assert(no_fraction_before(status, first)) by {
                    assert forall|j: int| 0 <= j < first && status[j] == '/' implies (
                    #[trigger] fraction_at(status, j)) is None by {
                        assert(status.skip(j).subrange(0, 1) =~= "/"@);
                        assert(!"/"@.is_prefix_of(status.skip(j)));
                    }
                }
            }
        },
        None => {
            assert forall|j: int| 0 <= j < status.len() && status[j] == '/' implies (
            #[trigger] fraction_at(status, j)) is None by {
                assert(status.skip(j).subrange(0, 1) =~= "/"@);
                assert(!"/"@.is_prefix_of(status.skip(j)));
            }
        },
    }
}

/// A fraction that is read off a status stands in it, around a slash; both its numbers
/// are digits, and the second is not zero.
pub proof fn law_fraction_stands_in_the_status(status: Seq<char>)
    ensures
        fraction_in(status) matches Some((above, below)) ==> {
            &&& text::all_digits(above)
            &&& above.len() > 0
            &&& text::all_digits(below)
            &&& text::digits_value(below) > 0
            &&& exists|slash: int|
                0 <= slash < status.len() && #[trigger] status[slash] == '/'
                    && above.is_suffix_of(status.take(slash)) && below.is_prefix_of(
                    status.skip(slash + 1),
                )
        },
{
    law_fraction_is_the_first(status);
    if let Some(fraction) = fraction_in(status) {
        let slash = choose|slash: int|
            0 <= slash < status.len() && status[slash] == '/' && (#[trigger] fraction_at(
                status,
                slash,
            )) == Some(fraction) && no_fraction_before(status, slash);
        lemma_last_digits(status.take(slash));
        lemma_first_digits(status.skip(slash + 1));
        lemma_first_digits_stand(status.skip(slash + 1));
    }
}

proof fn lemma_last_digits_are_all(before: Seq<char>, digits: Seq<char>)
    requires
        text::all_digits(digits),
        before.len() > 0 ==> !text::is_digit(before.last()),
    ensures
        last_digits(before + digits) == digits,
    decreases digits.len(),
{
    if digits.len() == 0 {
        assert(before + digits =~= before);
    } else {
        let fewer = digits.drop_last();
        assert(text::is_digit(digits[digits.len() - 1]));
        assert forall|i: int| 0 <= i < fewer.len() implies text::is_digit(#[trigger] fewer[i]) by {
            assert(text::is_digit(digits[i]));
        }
        lemma_last_digits_are_all(before, fewer);
        assert((before + digits).drop_last() =~= before + fewer);
        assert((before + digits).last() == digits.last());
        assert(fewer.push(digits.last()) =~= digits);
    }
}

proof fn lemma_first_digits_are_all(digits: Seq<char>, after: Seq<char>)
    requires
        text::all_digits(digits),
        after.len() > 0 ==> !text::is_digit(after[0]),
    ensures
        first_digits(digits + after) == digits,
    decreases digits.len(),
{
    let s = digits + after;
    if digits.len() == 0 {
        assert(s =~= after);
    } else {
        let fewer = digits.drop_first();
        assert(text::is_digit(digits[0]));
        assert forall|i: int| 0 <= i < fewer.len() implies text::is_digit(#[trigger] fewer[i]) by {
            assert(text::is_digit(digits[i + 1]));
        }
        lemma_first_digits_are_all(fewer, after);
        assert(s.drop_first() =~= fewer + after);
        assert(s[0] == digits[0]);
        assert(seq![s[0]] + fewer =~= digits);
    }
}

/// The first fraction in a status is read off it with all its digits, whatever stands
/// around it.
pub proof fn law_a_fraction_is_read_whole(
    before: Seq<char>,
    above: Seq<char>,
    below: Seq<char>,
    after: Seq<char>,
)
    requires
        !before.contains('/'),
        before.len() > 0 ==> !text::is_digit(before.last()),
        above.len() > 0,
        text::all_digits(above),
        text::all_digits(below),
        text::digits_value(below) > 0,
        after.len() > 0 ==> !text::is_digit(after[0]),
    ensures
        fraction_in(before + above + "/"@ + below + after) == Some((above, below)),
{
    reveal_strlit("/");
    let status = before + above + "/"@ + below + after;
    let slash = (before.len() + above.len()) as int;
    assert(status.take(slash) =~= before + above);
    assert(status.skip(slash + 1) =~= below + after);
    lemma_last_digits_are_all(before, above);
    lemma_first_digits_are_all(below, after);
    assert(status.skip(slash).subrange(0, 1) =~= "/"@);
    assert forall|k: int| 0 <= k < slash implies !"/"@.is_prefix_of(#[trigger] status.skip(k)) by {
        assert(status.skip(k)[0] == status[k]);
        if "/"@.is_prefix_of(status.skip(k)) {
            assert(status.skip(k).subrange(0, 1)[0] == '/');
            if k < before.len() {
                assert(before[k] == '/');
                assert(before.contains('/'));
            } else {
                assert(text::is_digit(above[k - before.len()]));
            }
        }
    }
    text::lemma_first_place(status, "/"@, slash);
}

} // verus!
