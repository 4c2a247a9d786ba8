//! Text as a sequence of characters: trimming, joining, splitting, and reading
//! and writing decimal numbers.

use vstd::prelude::*;

verus! {

/// `String::push` appends the given character to the end of the string.
pub assume_specification[ String::push ](s: &mut String, c: char)
    ensures
        final(s)@ == old(s)@.push(c),
;

/// The characters of a string, in order.
pub fn chars_of(s: &str) -> (chars: Vec<char>)
    ensures
        chars@ == s@,
{
    let mut chars: Vec<char> = Vec::new();
    for c in it: s.chars()
        invariant
            it.seq() == s@,
            chars@ == s@.take(it.index() as int),
    {
        chars.push(c);
    }
    chars
}

/// The string made of the characters from position `from` up to position `to`.
pub fn text_between(chars: &Vec<char>, from: usize, to: usize) -> (text: String)
    requires
        from <= to <= chars@.len(),
    ensures
        text@ == chars@.subrange(from as int, to as int),
{
    let mut text = String::new();
    let mut i: usize = from;
    while i < to
        invariant
            from <= i <= to <= chars@.len(),
            text@ == chars@.subrange(from as int, i as int),
        decreases to - i,
    {
        text.push(chars[i]);
        i = i + 1;
    }
    text
}

/// Do two strings hold the same characters?
pub fn same_text(a: &str, b: &str) -> (same: bool)
    ensures
        same == (a@ == b@),
{
    broadcast use vstd::utf8::encode_utf8_decode_utf8;

    let x = a.as_bytes();
    let y = b.as_bytes();
    proof {
        assert(vstd::utf8::decode_utf8(vstd::utf8::encode_utf8(a@)) == a@);
        assert(vstd::utf8::decode_utf8(vstd::utf8::encode_utf8(b@)) == b@);
    }
    if x.len() != y.len() {
        return false;
    }
    let mut i: usize = 0;
    while i < x.len()
        invariant
            i <= x@.len(),
            x@.len() == y@.len(),
            x@ == vstd::utf8::encode_utf8(a@),
            y@ == vstd::utf8::encode_utf8(b@),
            forall|k: int| 0 <= k < i ==> x@[k] == y@[k],
        decreases x@.len() - i,
    {
        if x[i] != y[i] {
            return false;
        }
        i = i + 1;
    }
    assert(x@ =~= y@);
    true
}

/// Unicode's `White_Space` property.
pub open spec fn is_space(c: char) -> bool {
    ||| '\u{9}' <= c <= '\u{d}'
    ||| c == '\u{20}'
    ||| c == '\u{85}'
    ||| c == '\u{a0}'
    ||| c == '\u{1680}'
    ||| '\u{2000}' <= c <= '\u{200a}'
    ||| c == '\u{2028}'
    ||| c == '\u{2029}'
    ||| c == '\u{202f}'
    ||| c == '\u{205f}'
    ||| c == '\u{3000}'
}

/// Does the character have Unicode's `White_Space` property?
pub fn space(c: char) -> (r: bool)
    ensures
        r == is_space(c),
{
    ('\u{9}' <= c && c <= '\u{d}') || c == '\u{20}' || c == '\u{85}' || c == '\u{a0}' || c
        == '\u{1680}' || ('\u{2000}' <= c && c <= '\u{200a}') || c == '\u{2028}' || c == '\u{2029}'
        || c == '\u{202f}' || c == '\u{205f}' || c == '\u{3000}'
}

/// `s` without the spaces it begins with.
pub open spec fn trimmed_start(s: Seq<char>) -> Seq<char>
    decreases s.len(),
{
    if s.len() > 0 && is_space(s.first()) {
        trimmed_start(s.drop_first())
    } else {
        s
    }
}

/// `s` without the spaces it ends with.
pub open spec fn trimmed_end(s: Seq<char>) -> Seq<char>
    decreases s.len(),
{
    if s.len() > 0 && is_space(s.last()) {
        trimmed_end(s.drop_last())
    } else {
        s
    }
}

/// `s` without the spaces around it.
pub open spec fn trimmed(s: Seq<char>) -> Seq<char> {
    trimmed_end(trimmed_start(s))
}

/// Nothing is left of `s` once it is trimmed.
pub open spec fn is_blank(s: Seq<char>) -> bool {
    trimmed(s).len() == 0
}

/// The string without the spaces around it.
pub fn trim(s: &str) -> (r: String)
    ensures
        r@ == trimmed(s@),
{
    let chars = chars_of(s);
    let mut from: usize = 0;
    assert(chars@.skip(0) =~= s@);
    while from < chars.len() && space(chars[from])
        invariant
            chars@ == s@,
            from <= chars@.len(),
            trimmed_start(s@) == trimmed_start(chars@.skip(from as int)),
        decreases chars@.len() - from,
    {
        assert(chars@.skip(from as int).drop_first() =~= chars@.skip(from + 1));
        from = from + 1;
    }
    let mut to: usize = chars.len();
    let ghost rest = chars@.skip(from as int);
    assert(rest == trimmed_start(s@));
    assert(chars@.subrange(from as int, to as int) =~= rest);
    while from < to && space(chars[to - 1])
        invariant
            chars@ == s@,
            from <= to <= chars@.len(),
            trimmed_end(rest) == trimmed_end(chars@.subrange(from as int, to as int)),
        decreases to,
    {
        assert(chars@.subrange(from as int, to as int).drop_last() =~= chars@.subrange(
            from as int,
            to - 1,
        ));
        to = to - 1;
    }
    text_between(&chars, from, to)
}

/// Is the string empty once it is trimmed?
pub fn blank(s: &str) -> (r: bool)
    ensures
        r == is_blank(s@),
{
    trim(s).as_str().is_empty()
}

/// Does `s` begin with `prefix`?
pub fn starts_with(s: &str, prefix: &str) -> (r: bool)
    ensures
        r == prefix@.is_prefix_of(s@),
{
    let chars = chars_of(s);
    let wanted = chars_of(prefix);
    if wanted.len() > chars.len() {
        return false;
    }
    let mut i: usize = 0;
    while i < wanted.len()
        invariant
            i <= wanted@.len() <= chars@.len(),
            chars@ == s@,
            wanted@ == prefix@,
            forall|k: int| 0 <= k < i ==> chars@[k] == wanted@[k],
        decreases wanted@.len() - i,
    {
        if chars[i] != wanted[i] {
            assert(s@.subrange(0, prefix@.len() as int)[i as int] == s@[i as int]);
            return false;
        }
        i = i + 1;
    }
    assert(s@.subrange(0, prefix@.len() as int) =~= prefix@);
    true
}

/// Does the string end with the suffix?
pub fn ends_with(s: &str, suffix: &str) -> (r: bool)
    ensures
        r == suffix@.is_suffix_of(s@),
{
    let a = chars_of(s);
    let b = chars_of(suffix);
    if a.len() < b.len() {
        return false;
    }
    let n: usize = a.len();
    let from: usize = n - b.len();
    let mut i: usize = 0;
    while i < b.len()
        invariant
            i <= b@.len(),
            from + b@.len() == n,
            n == a@.len(),
            a@ == s@,
            b@ == suffix@,
            forall|k: int| 0 <= k < i ==> a@[from + k] == #[trigger] b@[k],
        decreases b@.len() - i,
    {
        if a[from + i] != b[i] {
            assert(s@.subrange(from as int, s@.len() as int)[i as int] != suffix@[i as int]);
            return false;
        }
        i = i + 1;
    }
    assert(s@.subrange(from as int, s@.len() as int) =~= suffix@);
    true
}

/// At most the first `n` characters of `s`.
pub open spec fn clipped(s: Seq<char>, n: nat) -> Seq<char> {
    if s.len() <= n {
        s
    } else {
        s.take(n as int)
    }
}

/// At most the first `n` characters of the string.
pub fn clip(s: &str, n: usize) -> (r: String)
    ensures
        r@ == clipped(s@, n as nat),
{
    let chars = chars_of(s);
    let to: usize = if chars.len() <= n {
        chars.len()
    } else {
        n
    };
    let r = text_between(&chars, 0, to);
    assert(r@ =~= clipped(s@, n as nat));
    r
}

/// `s` with every `from` replaced by the text `to`.
pub open spec fn replaced(s: Seq<char>, from: char, to: Seq<char>) -> Seq<char>
    decreases s.len(),
{
    if s.len() == 0 {
        Seq::empty()
    } else {
        replaced(s.drop_last(), from, to) + (if s.last() == from {
            to
        } else {
            seq![s.last()]
        })
    }
}

/// The string with every `from` replaced by the text `to`.
pub fn replace(s: &str, from: char, to: &str) -> (r: String)
    ensures
        r@ == replaced(s@, from, to@),
{
    let chars = chars_of(s);
    let mut r = String::new();
    let mut i: usize = 0;
    while i < chars.len()
        invariant
            i <= chars@.len(),
            chars@ == s@,
            r@ == replaced(s@.take(i as int), from, to@),
        decreases chars@.len() - i,
    {
        assert(s@.take(i + 1).drop_last() =~= s@.take(i as int));
        if chars[i] == from {
            r.append(to);
        } else {
            r.push(chars[i]);
            assert(r@ =~= replaced(s@.take(i as int), from, to@) + seq![s@[i as int]]);
        }
        i = i + 1;
    }
    assert(s@.take(s@.len() as int) =~= s@);
    r
}

/// Replacing works on the parts of a text one by one.
pub proof fn lemma_replaced_parts(a: Seq<char>, b: Seq<char>, from: char, to: Seq<char>)
    ensures
        replaced(a + b, from, to) == replaced(a, from, to) + replaced(b, from, to),
    decreases b.len(),
{
    if b.len() == 0 {
        assert(a + b =~= a);
        assert(replaced(a, from, to) + replaced(b, from, to) =~= replaced(a, from, to));
    } else {
        lemma_replaced_parts(a, b.drop_last(), from, to);
        assert((a + b).drop_last() =~= a + b.drop_last());
        assert(replaced(a + b, from, to) =~= replaced(a, from, to) + replaced(b, from, to));
    }
}

/// Where there is nothing to replace, nothing changes.
pub proof fn lemma_nothing_replaced(s: Seq<char>, from: char, to: Seq<char>)
    requires
        !s.contains(from),
    ensures
        replaced(s, from, to) == s,
    decreases s.len(),
{
    if s.len() > 0 {
        assert(s.last() != from);
        assert forall|i: int| 0 <= i < s.drop_last().len() implies s.drop_last()[i] != from by {
            assert(s[i] != from);
        }
        lemma_nothing_replaced(s.drop_last(), from, to);
        assert(s.drop_last() + seq![s.last()] =~= s);
    }
}

/// What a series holds once an item was added to it.
pub proof fn lemma_contains_push<A>(s: Seq<A>, x: A, y: A)
    ensures
        s.push(x).contains(y) <==> s.contains(y) || y == x,
{
    if s.contains(y) {
        let k = choose|k: int| 0 <= k < s.len() && s[k] == y;
        assert(s.push(x)[k] == y);
    }
    if y == x {
        assert(s.push(x)[s.len() as int] == y);
    }
}

/// What two series one after the other hold.
pub proof fn lemma_contains_either<A>(p: Seq<A>, q: Seq<A>, y: A)
    ensures
        (p + q).contains(y) <==> p.contains(y) || q.contains(y),
{
    if p.contains(y) {
        let k = choose|k: int| 0 <= k < p.len() && p[k] == y;
        assert((p + q)[k] == y);
    }
    if q.contains(y) {
        let k = choose|k: int| 0 <= k < q.len() && q[k] == y;
        assert((p + q)[p.len() + k] == y);
    }
    if (p + q).contains(y) {
        let k = choose|k: int| 0 <= k < (p + q).len() && (p + q)[k] == y;
        if k < p.len() {
            assert(p[k] == y);
        } else {
            assert(q[k - p.len()] == y);
        }
    }
}

/// The parts one after the other, with `between` standing between neighbours.
pub open spec fn joined(parts: Seq<Seq<char>>, between: Seq<char>) -> Seq<char>
    decreases parts.len(),
{
    if parts.len() == 0 {
        Seq::empty()
    } else if parts.len() == 1 {
        parts[0]
    } else {
        joined(parts.drop_last(), between) + between + parts.last()
    }
}

/// The strings one after the other, with `between` standing between neighbours.
pub fn join(parts: &Vec<String>, between: &str) -> (r: String)
    ensures
        r@ == joined(parts.deep_view(), between@),
{
    let mut r = String::new();
    let ghost all = parts.deep_view();
    let mut i: usize = 0;
    assert(all.take(0).len() == 0);
    while i < parts.len()
        invariant
            i <= parts@.len(),
            all == parts.deep_view(),
            r@ == joined(all.take(i as int), between@),
        decreases parts@.len() - i,
    {
        assert(all.take(i + 1).drop_last() =~= all.take(i as int));
        assert(all.take(i + 1).last() == parts@[i as int]@);
        if i > 0 {
            r.append(between);
        }
        r.append(parts[i].as_str());
        assert(r@ =~= joined(all.take(i + 1), between@));
        i = i + 1;
    }
    assert(all.take(all.len() as int) =~= all);
    r
}

/// The pieces that `s` falls into where `cut` marks a character as lying between
/// two of them. Pieces can be empty.
pub open spec fn pieces(s: Seq<char>, cut: Seq<bool>) -> Seq<Seq<char>>
    decreases s.len(),
{
    if s.len() == 0 {
        seq![Seq::empty()]
    } else {
        let before = pieces(s.drop_last(), cut);
        if cut[s.len() - 1] {
            before.push(Seq::empty())
        } else {
            before.drop_last().push(before.last().push(s.last()))
        }
    }
}

/// Only the marks on its own characters matter for the pieces of a text.
pub proof fn lemma_pieces_agree(s: Seq<char>, cut: Seq<bool>, other: Seq<bool>)
    requires
        forall|i: int| 0 <= i < s.len() ==> cut[i] == #[trigger] other[i],
    ensures
        pieces(s, cut) == pieces(s, other),
        pieces(s, cut).len() > 0,
    decreases s.len(),
{
    if s.len() > 0 {
        lemma_pieces_agree(s.drop_last(), cut, other);
        assert(cut[s.len() - 1] == other[s.len() - 1]);
    }
}

/// The characters at the cuts do not show in the pieces.
pub proof fn lemma_cut_characters_do_not_matter(s: Seq<char>, other: Seq<char>, cut: Seq<bool>)
    requires
        s.len() == other.len(),
        forall|i: int| 0 <= i < s.len() ==> s[i] == other[i] || #[trigger] cut[i],
    ensures
        pieces(s, cut) == pieces(other, cut),
    decreases s.len(),
{
    if s.len() > 0 {
        lemma_cut_characters_do_not_matter(s.drop_last(), other.drop_last(), cut);
        assert(s[s.len() - 1] == other[s.len() - 1] || cut[s.len() - 1]);
    }
}

/// A text without a cut is one piece.
pub proof fn lemma_one_piece(s: Seq<char>, cut: Seq<bool>)
    requires
        forall|i: int| 0 <= i < s.len() ==> !#[trigger] cut[i],
    ensures
        pieces(s, cut) == seq![s],
    decreases s.len(),
{
    if s.len() == 0 {
        assert(s =~= Seq::empty());
    } else {
        lemma_one_piece(s.drop_last(), cut);
        assert(!cut[s.len() - 1]);
        assert(s.drop_last().push(s.last()) =~= s);
        assert(pieces(s, cut) =~= seq![s]);
    }
}

/// The pieces of two texts with a cut between them are those of the one and those of
/// the other.
pub proof fn lemma_pieces_of_two(
    a: Seq<char>,
    cut_a: Seq<bool>,
    between: char,
    b: Seq<char>,
    cut_b: Seq<bool>,
)
    requires
        cut_a.len() == a.len(),
        cut_b.len() == b.len(),
    ensures
        pieces(a.push(between) + b, cut_a.push(true) + cut_b) == pieces(a, cut_a) + pieces(
            b,
            cut_b,
        ),
    decreases b.len(),
{
    let s = a.push(between) + b;
    let cut = cut_a.push(true) + cut_b;
    if b.len() == 0 {
        assert(s.drop_last() =~= a);
        lemma_pieces_agree(a, cut, cut_a);
        assert(pieces(s, cut) =~= pieces(a, cut_a) + pieces(b, cut_b));
    } else {
        let fewer = b.drop_last();
        let fewer_cut = cut_b.drop_last();
        lemma_pieces_of_two(a, cut_a, between, fewer, fewer_cut);
        lemma_pieces_agree(fewer, cut_b, fewer_cut);
        assert(s.drop_last() =~= a.push(between) + fewer);
        lemma_pieces_agree(s.drop_last(), cut, cut_a.push(true) + fewer_cut);
        assert(pieces(s, cut) =~= pieces(a, cut_a) + pieces(b, cut_b));
    }
}

/// The pieces that a text falls into where `cut` marks a character as lying
/// between two of them.
pub fn split(s: &str, cut: &Vec<bool>) -> (r: Vec<String>)
    requires
        cut@.len() == s@.len(),
    ensures
        r.deep_view() == pieces(s@, cut@),
{
    let chars = chars_of(s);
    let mut r: Vec<String> = Vec::new();
    let mut piece = String::new();
    let mut i: usize = 0;
    assert(r.deep_view().push(piece@) =~= pieces(s@.take(0), cut@));
    while i < chars.len()
        invariant
            i <= chars@.len(),
            chars@ == s@,
            cut@.len() == s@.len(),
            r.deep_view().push(piece@) == pieces(s@.take(i as int), cut@),
        decreases chars@.len() - i,
    {
        let ghost done = r.deep_view();
        let ghost now = piece@;
        assert(s@.take(i + 1).drop_last() =~= s@.take(i as int));
        assert(done.push(now).drop_last() =~= done);
        if cut[i] {
            r.push(piece);
            piece = String::new();
            assert(r.deep_view() =~= done.push(now));
        } else {
            piece.push(chars[i]);
        }
        assert(r.deep_view().push(piece@) =~= pieces(s@.take(i + 1), cut@));
        i = i + 1;
    }
    assert(s@.take(s@.len() as int) =~= s@);
    let ghost done = r.deep_view();
    r.push(piece);
    assert(r.deep_view() =~= done.push(piece@));
    r
}

/// Where `wanted` first stands in `s`.
pub open spec fn place_of(s: Seq<char>, wanted: Seq<char>) -> Option<int>
    decreases s.len(),
{
    if wanted.is_prefix_of(s) {
        Some(0)
    } else if s.len() == 0 {
        None
    } else {
        match place_of(s.drop_first(), wanted) {
            Some(i) => Some(i + 1),
            None => None,
        }
    }
}

/// Where a text stands first, it stands, and it stands nowhere before; where it
/// is said to stand nowhere, it does not.
pub proof fn lemma_place_of(s: Seq<char>, wanted: Seq<char>)
    ensures
        match place_of(s, wanted) {
            Some(i) => {
                &&& 0 <= i <= s.len() - wanted.len()
                &&& wanted.is_prefix_of(s.skip(i))
                &&& forall|j: int| 0 <= j < i ==> !wanted.is_prefix_of(#[trigger] s.skip(j))
            },
            None => forall|j: int|
                0 <= j <= s.len() ==> !wanted.is_prefix_of(#[trigger] s.skip(j)),
        },
    decreases s.len(),
{
    assert(s.skip(0) =~= s);
    if !wanted.is_prefix_of(s) && s.len() > 0 {
        let rest = s.drop_first();
        lemma_place_of(rest, wanted);
        assert forall|j: int| 1 <= j <= s.len() implies #[trigger] s.skip(j) == rest.skip(
            j - 1,
        ) by {
            assert(s.skip(j) =~= rest.skip(j - 1));
        }
        match place_of(rest, wanted) {
            Some(i) => {
                assert forall|j: int| 0 <= j < i + 1 implies !wanted.is_prefix_of(
                    #[trigger] s.skip(j),
                ) by {
                    if j > 0 {
                        assert(!wanted.is_prefix_of(rest.skip(j - 1)));
                    }
                }
            },
            None => {
                assert forall|j: int| 0 <= j <= s.len() implies !wanted.is_prefix_of(
                    #[trigger] s.skip(j),
                ) by {
                    if j > 0 {
                        assert(!wanted.is_prefix_of(rest.skip(j - 1)));
                    }
                }
            },
        }
    }
}

/// A text stands first where it stands and nowhere before.
pub proof fn lemma_first_place(s: Seq<char>, wanted: Seq<char>, i: int)
    requires
        0 <= i <= s.len(),
        wanted.is_prefix_of(s.skip(i)),
        forall|k: int| 0 <= k < i ==> !wanted.is_prefix_of(#[trigger] s.skip(k)),
    ensures
        place_of(s, wanted) == Some(i),
{
    lemma_place_of(s, wanted);
}

fn stands_at(chars: &Vec<char>, wanted: &Vec<char>, at: usize) -> (r: bool)
    requires
        at <= chars@.len(),
    ensures
        r == wanted@.is_prefix_of(chars@.skip(at as int)),
{
    let n: usize = chars.len();
    if n - at < wanted.len() {
        return false;
    }
    let ghost rest = chars@.skip(at as int);
    let mut i: usize = 0;
    while i < wanted.len()
        invariant
            i <= wanted@.len(),
            at + wanted@.len() <= n,
            n == chars@.len(),
            rest == chars@.skip(at as int),
            forall|k: int| 0 <= k < i ==> rest[k] == #[trigger] wanted@[k],
        decreases wanted@.len() - i,
    {
        if chars[at + i] != wanted[i] {
            assert(rest.subrange(0, wanted@.len() as int)[i as int] != wanted@[i as int]);
            return false;
        }
        i = i + 1;
    }
    assert(rest.subrange(0, wanted@.len() as int) =~= wanted@);
    true
}

fn find_from(chars: &Vec<char>, wanted: &Vec<char>, from: usize) -> (r: Option<usize>)
    requires
        from <= chars@.len(),
    ensures
        match r {
            Some(i) => from <= i <= chars@.len() - wanted@.len() && place_of(
                chars@.skip(from as int),
                wanted@,
            ) == Some(i - from),
            None => place_of(chars@.skip(from as int), wanted@) is None,
        },
{
    let ghost start = chars@.skip(from as int);
    proof {
        lemma_place_of(start, wanted@);
    }
    let mut i: usize = from;
    assert(start.skip(0) =~= start);
    while i < chars.len()
        invariant
            from <= i <= chars@.len(),
            start == chars@.skip(from as int),
            match place_of(chars@.skip(i as int), wanted@) {
                Some(k) => place_of(start, wanted@) == Some(k + (i - from)),
                None => place_of(start, wanted@) is None,
            },
            place_of(start, wanted@) matches Some(k) ==> k <= start.len() - wanted@.len(),
        decreases chars@.len() - i,
    {
        if stands_at(chars, wanted, i) {
            return Some(i);
        }
        assert(chars@.skip(i as int).drop_first() =~= chars@.skip(i + 1));
        i = i + 1;
    }
    if stands_at(chars, wanted, i) {
        Some(i)
    } else {
        None
    }
}

/// Where `wanted` first stands in a text, counted in characters.
pub fn find_text(s: &str, wanted: &str) -> (r: Option<usize>)
    ensures
        match r {
            Some(i) => place_of(s@, wanted@) == Some(i as int),
            None => place_of(s@, wanted@) is None,
        },
{
    let chars = chars_of(s);
    assert(chars@.skip(0) =~= s@);
    find_from(&chars, &chars_of(wanted), 0)
}

/// The parts that a text falls into at every place where `mark` stands.
pub open spec fn parted(s: Seq<char>, mark: Seq<char>) -> Seq<Seq<char>>
    decreases s.len(),
{
    match place_of(s, mark) {
        Some(i) => if mark.len() == 0 {
            seq![s]
        } else {
            proof {
                lemma_place_of(s, mark);
            }
            seq![s.take(i)] + parted(s.skip(i + mark.len()), mark)
        },
        None => seq![s],
    }
}

/// The parts that a text falls into at every place where `mark` stands.
pub fn part(s: &str, mark: &str) -> (r: Vec<String>)
    requires
        mark@.len() > 0,
    ensures
        r.deep_view() == parted(s@, mark@),
{
    let chars = chars_of(s);
    let wanted = chars_of(mark);
    let n: usize = chars.len();
    let mut r: Vec<String> = Vec::new();
    let mut from: usize = 0;
    assert(s@.skip(0) =~= s@);
    assert(r.deep_view() + parted(s@, mark@) =~= parted(s@, mark@));
    loop
        invariant
            from <= n,
            n == chars@.len(),
            chars@ == s@,
            wanted@ == mark@,
            mark@.len() > 0,
            r.deep_view() + parted(s@.skip(from as int), mark@) == parted(s@, mark@),
        decreases n - from,
    {
        let ghost before = r.deep_view();
        let ghost rest = s@.skip(from as int);
        match find_from(&chars, &wanted, from) {
            Some(i) => {
                let piece = text_between(&chars, from, i);
                let to: usize = i + wanted.len();
                assert(piece@ =~= rest.take(i - from));
                assert(rest.skip(i - from + mark@.len()) =~= s@.skip(to as int));
                r.push(piece);
                assert(r.deep_view() =~= before.push(piece@));
                assert(before + parted(rest, mark@) =~= r.deep_view() + parted(
                    s@.skip(to as int),
                    mark@,
                ));
                from = to;
            },
            None => {
                let piece = text_between(&chars, from, n);
                assert(piece@ =~= rest);
                r.push(piece);
                assert(r.deep_view() =~= before + parted(rest, mark@));
                return r;
            },
        }
    }
}

/// The pieces that are not empty.
pub open spec fn nonempty(parts: Seq<Seq<char>>) -> Seq<Seq<char>>
    decreases parts.len(),
{
    if parts.len() == 0 {
        Seq::empty()
    } else if parts.last().len() == 0 {
        nonempty(parts.drop_last())
    } else {
        nonempty(parts.drop_last()).push(parts.last())
    }
}

/// Which characters are white space.
pub open spec fn space_cuts(s: Seq<char>) -> Seq<bool> {
    Seq::new(s.len(), |i: int| is_space(s[i]))
}

/// The words of a text: what stands between its white space.
pub open spec fn words(s: Seq<char>) -> Seq<Seq<char>> {
    nonempty(pieces(s, space_cuts(s)))
}

/// Leaving out what is empty works on the parts of a series one by one.
pub proof fn lemma_nonempty_of_two(p: Seq<Seq<char>>, q: Seq<Seq<char>>)
    ensures
        nonempty(p + q) == nonempty(p) + nonempty(q),
    decreases q.len(),
{
    if q.len() == 0 {
        assert(p + q =~= p);
        assert(nonempty(p) + nonempty(q) =~= nonempty(p));
    } else {
        lemma_nonempty_of_two(p, q.drop_last());
        assert((p + q).drop_last() =~= p + q.drop_last());
        assert(nonempty(p + q) =~= nonempty(p) + nonempty(q));
    }
}

/// The words of two texts with white space between them are those of the one and
/// then those of the other.
pub proof fn lemma_words_of_two(a: Seq<char>, between: char, b: Seq<char>)
    requires
        is_space(between),
    ensures
        words(a.push(between) + b) == words(a) + words(b),
{
    assert(space_cuts(a.push(between) + b) =~= space_cuts(a).push(true) + space_cuts(b));
    lemma_pieces_of_two(a, space_cuts(a), between, b, space_cuts(b));
    lemma_nonempty_of_two(pieces(a, space_cuts(a)), pieces(b, space_cuts(b)));
}

/// A text without white space is one word, unless it is empty.
pub proof fn lemma_one_word(s: Seq<char>)
    requires
        forall|i: int| 0 <= i < s.len() ==> !is_space(#[trigger] s[i]),
    ensures
        words(s) == if s.len() == 0 {
            Seq::empty()
        } else {
            seq![s]
        },
{
    lemma_one_piece(s, space_cuts(s));
    reveal_with_fuel(nonempty, 2);
    assert(seq![s].drop_last() =~= Seq::empty());
    assert(words(s) =~= if s.len() == 0 {
        Seq::empty()
    } else {
        seq![s]
    });
}

/// The words of a text: what stands between its white space.
pub fn split_words(s: &str) -> (r: Vec<String>)
    ensures
        r.deep_view() == words(s@),
{
    let chars = chars_of(s);
    let mut cut: Vec<bool> = Vec::new();
    let mut i: usize = 0;
    while i < chars.len()
        invariant
            i == cut@.len(),
            i <= chars@.len(),
            chars@ == s@,
            forall|k: int| 0 <= k < i ==> #[trigger] cut@[k] == is_space(s@[k]),
        decreases chars@.len() - i,
    {
        cut.push(space(chars[i]));
        i = i + 1;
    }
    assert(cut@ =~= space_cuts(s@));
    let parts = split(s, &cut);
    let ghost all = parts.deep_view();
    let mut r: Vec<String> = Vec::new();
    let mut j: usize = 0;
    assert(r.deep_view() =~= nonempty(all.take(0)));
    while j < parts.len()
        invariant
            j <= parts@.len(),
            all == parts.deep_view(),
            r.deep_view() == nonempty(all.take(j as int)),
        decreases parts@.len() - j,
    {
        let ghost before = r.deep_view();
        assert(all.take(j + 1).drop_last() =~= all.take(j as int));
        if !parts[j].as_str().is_empty() {
            r.push(parts[j].clone());
            assert(r.deep_view() =~= before.push(all[j as int]));
        }
        j = j + 1;
    }
    assert(all.take(all.len() as int) =~= all);
    r
}

/// The decimal digit for `d`, which is below ten.
pub open spec fn digit(d: nat) -> char {
    (48 + d) as char
}

/// `n` in decimal, without leading zeros.
pub open spec fn decimal(n: nat) -> Seq<char>
    decreases n,
{
    if n < 10 {
        seq![digit(n)]
    } else {
        decimal(n / 10).push(digit(n % 10))
    }
}

/// `n` in decimal, with a minus sign if it is negative.
pub open spec fn signed_decimal(n: int) -> Seq<char> {
    if n < 0 {
        seq!['-'] + decimal((-n) as nat)
    } else {
        decimal(n as nat)
    }
}

/// Appends `n` in decimal.
pub fn push_decimal(out: &mut String, n: u128)
    ensures
        final(out)@ == old(out)@ + decimal(n as nat),
    decreases n,
{
    if n >= 10 {
        push_decimal(out, n / 10);
    }
    let d: u8 = (n % 10) as u8;
    out.push((48u8 + d) as char);
    assert(out@ =~= old(out)@ + decimal(n as nat));
}

/// `n` in decimal.
pub fn write_decimal(n: u128) -> (r: String)
    ensures
        r@ == decimal(n as nat),
{
    let mut r = String::new();
    push_decimal(&mut r, n);
    assert(r@ =~= decimal(n as nat));
    r
}

/// `n` in decimal, with a minus sign if it is negative.
pub fn write_signed_decimal(n: i64) -> (r: String)
    ensures
        r@ == signed_decimal(n as int),
{
    if n < 0 {
        let mut r = String::new();
        r.push('-');
        push_decimal(&mut r, (-(n as i128)) as u128);
        assert(r@ =~= signed_decimal(n as int));
        r
    } else {
        write_decimal(n as u128)
    }
}

/// Is the character an ASCII decimal digit?
pub open spec fn is_digit(c: char) -> bool {
    '0' <= c <= '9'
}

/// Is the character an ASCII decimal digit?
pub fn decimal_digit(c: char) -> (r: bool)
    ensures
        r == is_digit(c),
{
    '0' <= c && c <= '9'
}

/// Is every character an ASCII decimal digit?
pub open spec fn all_digits(s: Seq<char>) -> bool {
    forall|i: int| 0 <= i < s.len() ==> is_digit(#[trigger] s[i])
}

/// The number that the digits `s` spell.
pub open spec fn digits_value(s: Seq<char>) -> nat
    decreases s.len(),
{
    if s.len() == 0 {
        0
    } else {
        digits_value(s.drop_last()) * 10 + (s.last() as nat - 48) as nat
    }
}

/// The unsigned number that `s` spells: digits after an optional plus sign, for
/// a value of at most `max`.
pub open spec fn unsigned_value(s: Seq<char>, max: nat) -> Option<nat> {
    let digits = if s.len() > 0 && s.first() == '+' {
        s.drop_first()
    } else {
        s
    };
    if digits.len() > 0 && all_digits(digits) && digits_value(digits) <= max {
        Some(digits_value(digits))
    } else {
        None
    }
}

/// More digits spell no smaller a number.
pub proof fn lemma_digits_value_grows(s: Seq<char>, n: int)
    requires
        0 <= n <= s.len(),
        all_digits(s),
    ensures
        digits_value(s.take(n)) <= digits_value(s),
    decreases s.len() - n,
{
    if n < s.len() {
        lemma_digits_value_grows(s, n + 1);
        assert(s.take(n + 1).drop_last() =~= s.take(n));
    } else {
        assert(s.take(n) =~= s);
    }
}

/// Reads an unsigned number: digits after an optional plus sign, for a value of
/// at most `max`.
pub fn read_unsigned(s: &str, max: u64) -> (r: Option<u64>)
    ensures
        r is Some == unsigned_value(s@, max as nat) is Some,
        r matches Some(n) ==> Some(n as nat) == unsigned_value(s@, max as nat),
{
    let chars = chars_of(s);
    let start: usize = if chars.len() > 0 && chars[0] == '+' {
        1
    } else {
        0
    };
    let ghost digits = chars@.skip(start as int);
    proof {
        if start == 1 {
            assert(digits =~= s@.drop_first());
        } else {
            assert(digits =~= s@);
        }
    }
    if start == chars.len() {
        return None;
    }
    let mut total: u64 = 0;
    let mut i: usize = start;
    while i < chars.len()
        invariant
            start <= i <= chars@.len(),
            digits == chars@.skip(start as int),
            all_digits(digits.take(i - start)),
            total as nat == digits_value(digits.take(i - start)),
            total <= max,
            unsigned_value(s@, max as nat) == (if digits.len() > 0 && all_digits(digits)
                && digits_value(digits) <= max {
                Some(digits_value(digits))
            } else {
                None
            }),
        decreases chars@.len() - i,
    {
        let c = chars[i];
        assert(c == digits[i - start]);
        if !decimal_digit(c) {
            return None;
        }
        let ghost more = digits.take(i - start + 1);
        proof {
            assert(more.drop_last() =~= digits.take(i - start));
            assert(all_digits(more)) by {
                assert forall|k: int| 0 <= k < more.len() implies is_digit(#[trigger] more[k]) by {
                    if k < i - start {
                        assert(more[k] == digits.take(i - start)[k]);
                    }
                }
            }
        }
        let wide: u128 = (total as u128) * 10 + ((c as u32) - 48) as u128;
        assert(wide as nat == digits_value(more));
        if wide > max as u128 {
            proof {
                if all_digits(digits) {
                    lemma_digits_value_grows(digits, i - start + 1);
                }
            }
            return None;
        }
        total = wide as u64;
        i = i + 1;
    }
    assert(digits.take(i - start) =~= digits);
    Some(total)
}

/// A number in decimal is made of digits.
pub proof fn lemma_decimal_digits(n: nat)
    ensures
        all_digits(decimal(n)),
        decimal(n).len() > 0,
    decreases n,
{
    if n >= 10 {
        lemma_decimal_digits(n / 10);
    }
}

/// A text with a character that is no white space is not blank.
pub proof fn lemma_not_blank(s: Seq<char>, i: int)
    requires
        0 <= i < s.len(),
        !is_space(s[i]),
    ensures
        !is_blank(s),
{
    lemma_trimmed_start_keeps(s, i);
    let t = trimmed_start(s);
    let j = choose|j: int| 0 <= j < t.len() && !is_space(#[trigger] t[j]);
    lemma_trimmed_end_keeps(t, j);
}

proof fn lemma_trimmed_start_keeps(s: Seq<char>, i: int)
    requires
        0 <= i < s.len(),
        !is_space(s[i]),
    ensures
        exists|j: int|
            0 <= j < trimmed_start(s).len() && !is_space(#[trigger] trimmed_start(s)[j]),
    decreases s.len(),
{
    if is_space(s[0]) {
        assert(s.drop_first()[i - 1] == s[i]);
        lemma_trimmed_start_keeps(s.drop_first(), i - 1);
        assert(trimmed_start(s) == trimmed_start(s.drop_first()));
    } else {
        assert(!is_space(trimmed_start(s)[i]));
    }
}

proof fn lemma_trimmed_end_keeps(s: Seq<char>, i: int)
    requires
        0 <= i < s.len(),
        !is_space(s[i]),
    ensures
        trimmed_end(s).len() > 0,
    decreases s.len(),
{
    if is_space(s.last()) {
        assert(s.drop_last()[i] == s[i]);
        lemma_trimmed_end_keeps(s.drop_last(), i);
    }
}

/// Trimming a text that was trimmed changes nothing.
pub proof fn lemma_trimmed_twice(s: Seq<char>)
    ensures
        trimmed(trimmed(s)) == trimmed(s),
{
    let t = trimmed_start(s);
    lemma_trimmed_start_first(s);
    lemma_trimmed_end_last(t);
    let e = trimmed_end(t);
    if e.len() > 0 {
        assert(e[0] == t[0]);
    }
    assert(trimmed_start(e) == e);
}

proof fn lemma_trimmed_start_first(s: Seq<char>)
    ensures
        trimmed_start(s).len() > 0 ==> !is_space(trimmed_start(s)[0]),
    decreases s.len(),
{
    if s.len() > 0 && is_space(s[0]) {
        lemma_trimmed_start_first(s.drop_first());
    }
}

proof fn lemma_trimmed_end_last(s: Seq<char>)
    ensures
        trimmed_end(s).len() > 0 ==> !is_space(trimmed_end(s).last()) && trimmed_end(s)[0] == s[0],
    decreases s.len(),
{
    if s.len() > 0 && is_space(s.last()) {
        lemma_trimmed_end_last(s.drop_last());
    }
}

// ---- laws -----------------------------------------------------------------

/// White space is what Unicode calls so: the five controls from tab to carriage return,
/// the space, and the wider and narrower spaces beyond ASCII.
pub proof fn law_white_space(c: char)
    ensures
        is_space(c) <==> {
            let n = c as u32;
            ||| 9 <= n <= 13
            ||| n == 32
            ||| n == 0x85
            ||| n == 0xa0
            ||| n == 0x1680
            ||| 0x2000 <= n <= 0x200a
            ||| n == 0x2028
            ||| n == 0x2029
            ||| n == 0x202f
            ||| n == 0x205f
            ||| n == 0x3000
        },
{
}

/// Every character from position `from` up to position `to` is white space.
pub open spec fn only_spaces(s: Seq<char>, from: int, to: int) -> bool {
    forall|k: int| from <= k < to ==> is_space(#[trigger] s[k])
}

proof fn lemma_trimmed_start_is_rest(s: Seq<char>)
    ensures
        ({
            let n = s.len() - trimmed_start(s).len();
            &&& 0 <= n <= s.len()
            &&& trimmed_start(s) == s.skip(n)
            &&& only_spaces(s, 0, n)
        }),
    decreases s.len(),
{
    if s.len() > 0 && is_space(s.first()) {
        let rest = s.drop_first();
        lemma_trimmed_start_is_rest(rest);
        let n = s.len() - trimmed_start(s).len();
        assert(s.skip(n) =~= rest.skip(n - 1));
        assert forall|k: int| 0 <= k < n implies is_space(#[trigger] s[k]) by {
            if k > 0 {
                assert(rest[k - 1] == s[k]);
            }
        }
    } else {
        assert(s.skip(0) =~= s);
    }
}

proof fn lemma_trimmed_end_is_begin(s: Seq<char>)
    ensures
        ({
            let n = trimmed_end(s).len() as int;
            &&& 0 <= n <= s.len()
            &&& trimmed_end(s) == s.take(n)
            &&& only_spaces(s, n, s.len() as int)
        }),
    decreases s.len(),
{
    if s.len() > 0 && is_space(s.last()) {
        let rest = s.drop_last();
        lemma_trimmed_end_is_begin(rest);
        let n = trimmed_end(s).len() as int;
        assert(s.take(n) =~= rest.take(n));
        assert forall|k: int| n <= k < s.len() implies is_space(#[trigger] s[k]) by {
            if k < rest.len() {
                assert(rest[k] == s[k]);
            }
        }
    } else {
        assert(s.take(s.len() as int) =~= s);
    }
}

/// Trimming takes away white space, and nothing but white space, at the two ends: what is
/// left stands in the text as it was, with white space alone before it and after it, and
/// neither begins nor ends with any.
pub proof fn law_trimming_takes_the_ends(s: Seq<char>)
    ensures
        exists|i: int, j: int|
            {
                &&& 0 <= i <= j <= s.len()
                &&& trimmed(s) == #[trigger] s.subrange(i, j)
                &&& only_spaces(s, 0, i)
                &&& only_spaces(s, j, s.len() as int)
                &&& i < j ==> !is_space(s[i]) && !is_space(s[j - 1])
            },
{
    let t = trimmed_start(s);
    let e = trimmed(s);
    let i = s.len() - t.len();
    let j = i + e.len();
    lemma_trimmed_start_is_rest(s);
    lemma_trimmed_end_is_begin(t);
    lemma_trimmed_start_first(s);
    lemma_trimmed_end_last(t);
    assert(e =~= s.subrange(i, j));
    assert forall|k: int| j <= k < s.len() implies is_space(#[trigger] s[k]) by {
        assert(t[k - i] == s[k]);
    }
    if i < j {
        assert(e[0] == s[i]);
        assert(e.last() == s[j - 1]);
    }
}

/// A text that neither begins nor ends with white space is trimmed already.
pub proof fn law_trimmed_text_stays(s: Seq<char>)
    requires
        s.len() > 0 ==> !is_space(s[0]) && !is_space(s.last()),
    ensures
        trimmed(s) == s,
{
}

/// A text is blank exactly when it holds nothing but white space.
pub proof fn law_blank_is_white_space(s: Seq<char>)
    ensures
        is_blank(s) <==> only_spaces(s, 0, s.len() as int),
{
    if is_blank(s) {
        law_trimming_takes_the_ends(s);
    } else {
        law_trimming_takes_the_ends(s);
        let (i, j) = choose|i: int, j: int|
            {
                &&& 0 <= i <= j <= s.len()
                &&& trimmed(s) == #[trigger] s.subrange(i, j)
                &&& only_spaces(s, 0, i)
                &&& only_spaces(s, j, s.len() as int)
                &&& i < j ==> !is_space(s[i]) && !is_space(s[j - 1])
            };
        assert(!is_space(s[i]));
    }
}

/// At most the first `n` characters: the text itself where it has no more, and else its
/// first `n`.
pub proof fn law_clipping_keeps_the_begin(s: Seq<char>, n: nat)
    ensures
        clipped(s, n).is_prefix_of(s),
        s.len() <= n ==> clipped(s, n) == s,
        s.len() > n ==> clipped(s, n).len() == n,
{
    if s.len() <= n {
        assert(s.subrange(0, s.len() as int) =~= s);
    }
}

/// Texts are joined in order, each as it is, with `between` standing between neighbours
/// and nowhere else.
pub proof fn law_joining_keeps_every_text(parts: Seq<Seq<char>>, last: Seq<char>, between: Seq<char>)
    ensures
        joined(Seq::empty(), between) == Seq::<char>::empty(),
        joined(seq![last], between) == last,
        parts.len() > 0 ==> joined(parts.push(last), between) == joined(parts, between) + between
            + last,
{
    assert(parts.push(last).drop_last() =~= parts);
}

proof fn lemma_joined_first(first: Seq<char>, rest: Seq<Seq<char>>, between: Seq<char>)
    requires
        rest.len() > 0,
    ensures
        joined(seq![first] + rest, between) == first + between + joined(rest, between),
    decreases rest.len(),
{
    let all = seq![first] + rest;
    assert(all.drop_last() =~= seq![first] + rest.drop_last());
    assert(all.last() == rest.last());
    if rest.len() == 1 {
        assert(all.drop_last() =~= seq![first]);
        assert(joined(all.drop_last(), between) == first);
    } else {
        lemma_joined_first(first, rest.drop_last(), between);
    }
    assert(joined(all, between) =~= first + between + joined(rest, between));
}

/// Nothing is lost where a text is parted at a mark: its parts, joined by the mark, are
/// the text again, and no mark is left in any of them.
pub proof fn law_parting_loses_nothing(s: Seq<char>, mark: Seq<char>)
    requires
        mark.len() > 0,
    ensures
        parted(s, mark).len() > 0,
        joined(parted(s, mark), mark) == s,
        forall|i: int|
            0 <= i < parted(s, mark).len() ==> place_of(#[trigger] parted(s, mark)[i], mark)
                is None,
    decreases s.len(),
{
    lemma_place_of(s, mark);
    match place_of(s, mark) {
        Some(i) => {
            let rest = s.skip(i + mark.len());
            law_parting_loses_nothing(rest, mark);
            let first = s.take(i);
            let parts = parted(rest, mark);
            lemma_joined_first(first, parts, mark);
            assert(s.skip(i).subrange(0, mark.len() as int) =~= mark);
            assert(s.subrange(i, i + mark.len()) =~= mark) by {
                assert(s.skip(i).subrange(0, mark.len() as int) =~= s.subrange(i, i + mark.len()));
            }
            assert(first + mark + rest =~= s) by {
                assert(first + s.subrange(i, i + mark.len()) + rest =~= s);
            }
            assert(place_of(first, mark) is None) by {
                lemma_place_of(first, mark);
                if let Some(k) = place_of(first, mark) {
                    assert(first.skip(k).subrange(0, mark.len() as int) =~= s.skip(k).subrange(
                        0,
                        mark.len() as int,
                    ));
                    assert(mark.is_prefix_of(s.skip(k)));
                }
            }
            assert forall|k: int| 0 <= k < parted(s, mark).len() implies place_of(
                #[trigger] parted(s, mark)[k],
                mark,
            ) is None by {
                if k > 0 {
                    assert(parted(s, mark)[k] == parts[k - 1]);
                }
            }
        },
        None => {
            assert(joined(seq![s], mark) == s);
        },
    }
}

/// A text without the mark is one part.
pub proof fn law_unmarked_text_is_one_part(s: Seq<char>, mark: Seq<char>)
    requires
        place_of(s, mark) is None,
    ensures
        parted(s, mark) == seq![s],
{
}

/// A run that is not cut, and cannot be made longer: it reaches from a cut or the begin to
/// a cut or the end.
pub open spec fn is_uncut_run(cut: Seq<bool>, from: int, to: int) -> bool {
    &&& 0 <= from <= to <= cut.len()
    &&& forall|k: int| from <= k < to ==> !#[trigger] cut[k]
    &&& from > 0 ==> cut[from - 1]
    &&& to < cut.len() ==> cut[to]
}

/// Every run between two cuts is a piece, however long it is.
pub proof fn law_every_uncut_run_is_a_piece(s: Seq<char>, cut: Seq<bool>, from: int, to: int)
    requires
        cut.len() == s.len(),
        is_uncut_run(cut, from, to),
    ensures
        pieces(s, cut).contains(s.subrange(from, to)),
{
    let mid = s.subrange(from, to);
    let mid_cut = cut.subrange(from, to);
    lemma_one_piece(mid, mid_cut);
    assert(pieces(mid, mid_cut)[0] == mid);
    let rest = s.skip(from);
    let rest_cut = cut.skip(from);
    if to < s.len() {
        let b = s.skip(to + 1);
        let cut_b = cut.skip(to + 1);
        lemma_pieces_of_two(mid, mid_cut, s[to], b, cut_b);
        assert(mid.push(s[to]) + b =~= rest);
        assert(mid_cut.push(true) + cut_b =~= rest_cut);
        lemma_contains_either(pieces(mid, mid_cut), pieces(b, cut_b), mid);
    } else {
        assert(mid =~= rest);
        assert(mid_cut =~= rest_cut);
    }
    assert(pieces(rest, rest_cut).contains(mid));
    if from > 0 {
        let a = s.take(from - 1);
        let cut_a = cut.take(from - 1);
        lemma_pieces_of_two(a, cut_a, s[from - 1], rest, rest_cut);
        assert(a.push(s[from - 1]) + rest =~= s);
        assert(cut_a.push(true) + rest_cut =~= cut);
        lemma_contains_either(pieces(a, cut_a), pieces(rest, rest_cut), mid);
    } else {
        assert(rest =~= s);
        assert(rest_cut =~= cut);
    }
}

/// Every piece is a run between two cuts.
pub proof fn law_every_piece_is_an_uncut_run(s: Seq<char>, cut: Seq<bool>, piece: Seq<char>)
    requires
        cut.len() == s.len(),
        pieces(s, cut).contains(piece),
    ensures
        exists|from: int, to: int|
            is_uncut_run(cut, from, to) && piece == #[trigger] s.subrange(from, to),
    decreases s.len(),
{
    if exists|k: int| 0 <= k < cut.len() && #[trigger] cut[k] {
        let k = choose|k: int| 0 <= k < cut.len() && #[trigger] cut[k];
        let a = s.take(k);
        let cut_a = cut.take(k);
        let b = s.skip(k + 1);
        let cut_b = cut.skip(k + 1);
        lemma_pieces_of_two(a, cut_a, s[k], b, cut_b);
        assert(a.push(s[k]) + b =~= s);
        assert(cut_a.push(true) + cut_b =~= cut);
        lemma_contains_either(pieces(a, cut_a), pieces(b, cut_b), piece);
        if pieces(a, cut_a).contains(piece) {
            law_every_piece_is_an_uncut_run(a, cut_a, piece);
            let (i, j) = choose|i: int, j: int|
                is_uncut_run(cut_a, i, j) && piece == #[trigger] a.subrange(i, j);
            assert(piece =~= s.subrange(i, j));
            assert forall|n: int| i <= n < j implies !#[trigger] cut[n] by {
                assert(cut_a[n] == cut[n]);
            }
            assert(is_uncut_run(cut, i, j));
        } else {
            law_every_piece_is_an_uncut_run(b, cut_b, piece);
            let (i, j) = choose|i: int, j: int|
                is_uncut_run(cut_b, i, j) && piece == #[trigger] b.subrange(i, j);
            let from = i + k + 1;
            let to = j + k + 1;
            assert(piece =~= s.subrange(from, to));
            assert forall|n: int| from <= n < to implies !#[trigger] cut[n] by {
                assert(cut_b[n - k - 1] == cut[n]);
            }
            assert(is_uncut_run(cut, from, to));
        }
    } else {
        lemma_one_piece(s, cut);
        assert(piece == s);
        let n = s.len() as int;
        assert(s.subrange(0, n) =~= s);
        assert(is_uncut_run(cut, 0, n));
    }
}

/// Every `from` is replaced, and no other character, whatever stands around it.
pub proof fn law_replacing_goes_by_characters(
    a: Seq<char>,
    c: char,
    b: Seq<char>,
    from: char,
    to: Seq<char>,
)
    ensures
        replaced(a.push(c) + b, from, to) == replaced(a, from, to) + (if c == from {
            to
        } else {
            seq![c]
        }) + replaced(b, from, to),
        !a.contains(from) ==> replaced(a, from, to) == a,
{
    lemma_replaced_parts(a.push(c), b, from, to);
    assert(a.push(c).drop_last() =~= a);
    if !a.contains(from) {
        lemma_nothing_replaced(a, from, to);
    }
}

/// The number that digits spell: each digit counts ten times what the one after it does,
/// from zero for '0' to nine for '9'.
pub proof fn law_digits_spell_a_number(s: Seq<char>, c: char)
    requires
        is_digit(c),
    ensures
        digits_value(Seq::empty()) == 0,
        digits_value(s.push(c)) == 10 * digits_value(s) + (c as u32 - '0' as u32),
        '0' as u32 <= c as u32 <= '9' as u32,
{
    assert(s.push(c).drop_last() =~= s);
}

/// A number that is written in decimal reads back as the number.
pub proof fn law_decimal_reads_back(n: nat)
    ensures
        digits_value(decimal(n)) == n,
        all_digits(decimal(n)),
        decimal(n).len() > 0,
        n > 0 ==> decimal(n)[0] != '0',
        forall|max: nat| n <= max ==> #[trigger] unsigned_value(decimal(n), max) == Some(n),
    decreases n,
{
    lemma_decimal_digits(n);
    if n >= 10 {
        law_decimal_reads_back(n / 10);
        let d = digit(n % 10);
        assert(decimal(n).drop_last() =~= decimal(n / 10));
        assert(d as nat - 48 == n % 10);
    } else {
        assert(decimal(n).drop_last() =~= Seq::empty());
        assert(digits_value(decimal(n).drop_last()) == 0);
    }
    assert(is_digit(decimal(n)[0]));
}

/// Different numbers are written differently.
pub proof fn law_decimals_tell_numbers(n: nat, m: nat)
    requires
        decimal(n) == decimal(m),
    ensures
        n == m,
{
    law_decimal_reads_back(n);
    law_decimal_reads_back(m);
}

/// A signed number is its amount in decimal, after a minus sign where it is negative.
pub proof fn law_signed_decimal(n: nat)
    ensures
        signed_decimal(n as int) == decimal(n),
        n > 0 ==> signed_decimal(-n) == seq!['-'] + decimal(n),
{
}

/// What spells an unsigned number: one digit or more, with or without a plus sign before
/// them, for no more than the most that fits.
pub proof fn law_what_spells_a_number(digits: Seq<char>, max: nat)
    requires
        digits.len() > 0,
        all_digits(digits),
    ensures
        unsigned_value(digits, max) == if digits_value(digits) <= max {
            Some(digits_value(digits))
        } else {
            None
        },
        unsigned_value(seq!['+'] + digits, max) == unsigned_value(digits, max),
{
    assert(is_digit(digits[0]));
    assert((seq!['+'] + digits).drop_first() =~= digits);
}

} // verus!
