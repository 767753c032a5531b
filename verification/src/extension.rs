//! The extension of a file name: the text behind its final `.`.

use vstd::prelude::*;

verus! {

/// The index of the last `.` in `name`, or -1 where it holds none.
pub open spec fn last_dot(name: Seq<char>) -> int
    decreases name.len(),
{
    if name.len() == 0 {
        -1
    } else if name.last() == '.' {
        name.len() - 1
    } else {
        last_dot(name.drop_last())
    }
}

/// The extension of the file name `name`, without the dot.
///
/// A name has none where it holds no `.`, where its only `.` is its first
/// character (a hidden file), and where it is `..`. Otherwise the extension is
/// all that follows the final `.`, which may be the empty string.
pub open spec fn extension_of(name: Seq<char>) -> Option<Seq<char>> {
    let dot = last_dot(name);
    if dot <= 0 || name == seq!['.', '.'] {
        None
    } else {
        Some(name.skip(dot + 1))
    }
}

/// What `last_dot` finds: no `.` stands behind the index it gives, and one
/// stands at it unless the name holds none at all.
pub proof fn lemma_last_dot(name: Seq<char>)
    ensures
        -1 <= last_dot(name) < name.len(),
        last_dot(name) >= 0 ==> name[last_dot(name)] == '.',
        forall|i: int| last_dot(name) < i < name.len() ==> name[i] != '.',
    decreases name.len(),
{
    if name.len() > 0 && name.last() != '.' {
        lemma_last_dot(name.drop_last());
        assert forall|i: int| last_dot(name) < i < name.len() implies name[i] != '.' by {
            if i < name.len() - 1 {
                assert(name.drop_last()[i] == name[i]);
            }
        }
    }
}

/// An extension holds no `.`.
pub proof fn lemma_extension_has_no_dot(name: Seq<char>)
    requires
        extension_of(name) is Some,
    ensures
        !extension_of(name)->0.contains('.'),
{
    lemma_last_dot(name);
}

/// A name that goes on by one character: the last `.` is that character if it
/// is one, and stays where it was otherwise.
proof fn lemma_last_dot_push(name: Seq<char>, c: char)
    ensures
        last_dot(name.push(c)) == if c == '.' {
            name.len() as int
        } else {
            last_dot(name)
        },
{
    assert(name.push(c).drop_last() =~= name);
}

/// The extension of a file name, as `extension_of` defines it.
pub fn file_extension(name: &str) -> (ext: Option<String>)
    ensures
        match ext {
            Some(e) => extension_of(name@) == Some(e@),
            None => extension_of(name@) is None,
        },
{
    let total: usize = name.unicode_len();
    let mut len: usize = 0;
    let mut dot: Option<usize> = None;
    for c in it: name.chars()
        invariant
            len == it.index(),
            it.seq() == name@,
            name@.len() == total,
            match dot {
                Some(d) => d as int == last_dot(name@.take(len as int)),
                None => last_dot(name@.take(len as int)) == -1,
            },
    {
        proof {
            assert(name@.take(len + 1) =~= name@.take(len as int).push(c));
            lemma_last_dot_push(name@.take(len as int), c);
        }
        if c == '.' {
            dot = Some(len);
        }
        len = len + 1;
    }
    proof {
        assert(name@.take(len as int) =~= name@);
        lemma_last_dot(name@);
    }
    match dot {
        None => None,
        Some(d) => {
            if d == 0 || (len == 2 && d == 1 && name.get_char(0) == '.') {
                assert(d != 0 ==> name@ =~= seq!['.', '.']);
                None
            } else {
                Some(name.substring_char(d + 1, len).to_owned())
            }
        },
    }
}

} // verus!
