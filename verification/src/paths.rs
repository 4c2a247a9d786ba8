//! File paths, their components parted by slashes.

use crate::text;
use vstd::prelude::*;

verus! {

/// Where the part after the last slash of `path` begins.
pub open spec fn last_part_start(path: Seq<char>) -> nat
    decreases path.len(),
{
    if path.len() == 0 || path.last() == '/' {
        path.len()
    } else {
        last_part_start(path.drop_last())
    }
}

/// The last component of `path`, where slashes at the end and components that
/// are a single dot do not count. There is none if it is two dots.
pub open spec fn file_name_of(path: Seq<char>) -> Option<Seq<char>>
    decreases path.len(),
    via file_name_of_shrinks
{
    if path.len() == 0 {
        None
    } else if path.last() == '/' {
        file_name_of(path.drop_last())
    } else {
        let start = last_part_start(path) as int;
        let part = path.skip(start);
        if part == seq!['.'] {
            file_name_of(path.take(start))
        } else if part == seq!['.', '.'] {
            None
        } else {
            Some(part)
        }
    }
}

#[via_fn]
proof fn file_name_of_shrinks(path: Seq<char>) {
    lemma_last_part_start(path);
}

/// The part after the last slash lies within the path, and is not empty unless
/// the path ends in a slash.
proof fn lemma_last_part_start(path: Seq<char>)
    ensures
        last_part_start(path) <= path.len(),
        path.len() > 0 && path.last() != '/' ==> last_part_start(path) < path.len(),
    decreases path.len(),
{
    if path.len() > 0 && path.last() != '/' {
        lemma_last_part_start(path.drop_last());
    }
}

/// The last component of a path.
pub fn file_name(path: &str) -> (r: Option<String>)
    ensures
        match r {
            Some(name) => file_name_of(path@) == Some(name@),
            None => file_name_of(path@) is None,
        },
{
    let chars = text::chars_of(path);
    let mut to: usize = chars.len();
    assert(chars@.take(to as int) =~= path@);
    while to > 0
        invariant
            to <= chars@.len(),
            chars@ == path@,
            file_name_of(path@) == file_name_of(chars@.take(to as int)),
        decreases to,
    {
        let ghost whole = chars@.take(to as int);
        if chars[to - 1] == '/' {
            assert(whole.drop_last() =~= chars@.take(to - 1));
            to = to - 1;
        } else {
            let mut start: usize = to;
            while start > 0 && chars[start - 1] != '/'
                invariant
                    start <= to <= chars@.len(),
                    whole == chars@.take(to as int),
                    last_part_start(whole) == last_part_start(chars@.take(start as int)),
                decreases start,
            {
                assert(chars@.take(start as int).drop_last() =~= chars@.take(start - 1));
                start = start - 1;
            }
            proof {
                lemma_last_part_start(whole);
                assert(last_part_start(whole) == start);
                assert(whole.skip(start as int) =~= chars@.subrange(start as int, to as int));
                assert(whole.take(start as int) =~= chars@.take(start as int));
            }
            let ghost part = chars@.subrange(start as int, to as int);
            if to - start == 1 && chars[start] == '.' {
                assert(part =~= seq!['.']);
                to = start;
            } else if to - start == 2 && chars[start] == '.' && chars[start + 1] == '.' {
                assert(part =~= seq!['.', '.']);
                assert(part[1] == '.');
                return None;
            } else {
                assert(part != seq!['.']) by {
                    if part == seq!['.'] {
                        assert(part.len() == 1 && part[0] == '.');
                    }
                }
                assert(part != seq!['.', '.']) by {
                    if part == seq!['.', '.'] {
                        assert(part.len() == 2 && part[0] == '.' && part[1] == '.');
                    }
                }
                return Some(text::text_between(&chars, start, to));
            }
        }
    }
    None
}

proof fn lemma_last_part_of(dir: Seq<char>, name: Seq<char>)
    requires
        !name.contains('/'),
        dir.len() == 0 || dir.last() == '/',
    ensures
        last_part_start(dir + name) == dir.len(),
    decreases name.len(),
{
    if name.len() == 0 {
        assert(dir + name =~= dir);
    } else {
        let fewer = name.drop_last();
        assert(name.contains(name.last()));
        assert forall|i: int| 0 <= i < fewer.len() implies fewer[i] != '/' by {
            assert(name.contains(name[i]));
        }
        assert((dir + name).drop_last() =~= dir + fewer);
        lemma_last_part_of(dir, fewer);
    }
}

/// A file goes by what stands after the last slash of its path, character for character,
/// with or without a slash at the end.
pub proof fn law_a_file_goes_by_its_name(dir: Seq<char>, name: Seq<char>)
    requires
        name.len() > 0,
        !name.contains('/'),
        name != seq!['.'],
        name != seq!['.', '.'],
        dir.len() == 0 || dir.last() == '/',
    ensures
        file_name_of(dir + name) == Some(name),
        file_name_of((dir + name).push('/')) == Some(name),
{
    let path = dir + name;
    lemma_last_part_of(dir, name);
    assert(path.last() == name.last());
    assert(name.contains(name.last()));
    assert(path.skip(dir.len() as int) =~= name);
    assert(path.push('/').drop_last() =~= path);
}

/// Two dots name no file, and there is none in an empty path.
pub proof fn law_two_dots_are_no_name(dir: Seq<char>)
    requires
        dir.len() == 0 || dir.last() == '/',
    ensures
        file_name_of(dir + seq!['.', '.']) is None,
        file_name_of(Seq::empty()) is None,
{
    let dots = seq!['.', '.'];
    assert(!dots.contains('/'));
    lemma_last_part_of(dir, dots);
    assert((dir + dots).last() == '.');
    assert((dir + dots).skip(dir.len() as int) =~= dots);
}

/// A component that is a single dot does not count.
pub proof fn law_a_dot_does_not_count(dir: Seq<char>)
    requires
        dir.len() == 0 || dir.last() == '/',
    ensures
        file_name_of(dir.push('.')) == file_name_of(dir),
{
    let dot = seq!['.'];
    let path = dir.push('.');
    assert(path =~= dir + dot);
    assert(!dot.contains('/'));
    lemma_last_part_of(dir, dot);
    assert(path.skip(dir.len() as int) =~= dot);
    assert(path.take(dir.len() as int) =~= dir);
}

} // verus!
