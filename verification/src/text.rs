//! Line scanning and token splitting shared by both parsers.
//!
//! A file is split into lines on `'\n'` with the trailing newline stripped
//! and no other normalization; a line is split into fields on single ASCII
//! spaces, so repeated spaces yield empty fields.

use vstd::prelude::*;

verus! {

/// Fields of `s` split on the single separator character `sep`.
///
/// Splitting the empty string gives one empty field; every separator ends
/// the field before it, so repeated separators yield empty fields, and a
/// trailing separator yields a final empty field.
pub open spec fn sp_split(s: Seq<char>, sep: char) -> Seq<Seq<char>>
    decreases s.len(),
{
    if s.len() == 0 {
        seq![Seq::<char>::empty()]
    } else if s[s.len() - 1] == sep {
        sp_split(s.drop_last(), sep).push(Seq::<char>::empty())
    } else {
        let prior = sp_split(s.drop_last(), sep);
        prior.update(prior.len() - 1, prior.last().push(s[s.len() - 1]))
    }
}

/// Splitting always yields at least one field.
pub proof fn lemma_split_len(s: Seq<char>, sep: char)
    ensures
        sp_split(s, sep).len() >= 1,
    decreases s.len(),
{
    if s.len() > 0 {
        lemma_split_len(s.drop_last(), sep);
    }
}

/// The lines of a text: the fields of a split on `'\n'`, except that a text
/// ending in a newline does not yield a final empty line, and the empty text
/// has no lines at all.
pub open spec fn sp_lines(s: Seq<char>) -> Seq<Seq<char>> {
    if s.len() == 0 {
        Seq::<Seq<char>>::empty()
    } else {
        let parts = sp_split(s, '\n');
        if parts.last().len() == 0 {
            parts.drop_last()
        } else {
            parts
        }
    }
}

/// Pushing onto a vector pushes the element's view onto the deep view.
pub proof fn lemma_push_deep_view<T: DeepView>(pre: Vec<T>, post: Vec<T>, x: T)
    requires
        post@ == pre@.push(x),
    ensures
        post.deep_view() == pre.deep_view().push(x.deep_view()),
{
    assert(post.deep_view() =~= pre.deep_view().push(x.deep_view()));
}

/// Split `s` on the single character `sep`, preserving empty fields.
pub fn split_on(s: &str, sep: char) -> (r: Vec<String>)
    ensures
        r.deep_view() == sp_split(s@, sep),
{
    let n = s.unicode_len();
    let mut fields: Vec<String> = Vec::new();
    let mut start: usize = 0;
    let mut i: usize = 0;
    proof {
        assert(s@.subrange(0, 0) =~= Seq::<char>::empty());
        assert(fields.deep_view() =~= Seq::<Seq<char>>::empty());
        assert(sp_split(s@.subrange(0, 0), sep) =~= fields.deep_view().push(
            s@.subrange(0, 0),
        ));
    }
    while i < n
        invariant
            n == s@.len(),
            start <= i <= n,
            sp_split(s@.subrange(0, i as int), sep) == fields.deep_view().push(
                s@.subrange(start as int, i as int),
            ),
        decreases n - i,
    {
        let ghost pre = s@.subrange(0, i as int);
        let ghost post = s@.subrange(0, i + 1 as int);
        proof {
            assert(post.drop_last() =~= pre);
            assert(post[post.len() - 1] == s@[i as int]);
        }
        let c = s.get_char(i);
        if c == sep {
            let tok = s.substring_char(start, i);
            let owned = String::from_str(tok);
            let ghost old_fields = fields;
            fields.push(owned);
            proof {
                lemma_push_deep_view(old_fields, fields, owned);
                assert(s@.subrange(i + 1 as int, i + 1 as int) =~= Seq::<char>::empty());
                assert(sp_split(post, sep) =~= fields.deep_view().push(
                    s@.subrange(i + 1 as int, i + 1 as int),
                ));
            }
            start = i + 1;
        } else {
            proof {
                let prior = sp_split(pre, sep);
                lemma_split_len(pre, sep);
                assert(prior.last() == s@.subrange(start as int, i as int));
                assert(prior.last().push(s@[i as int]) =~= s@.subrange(start as int, i + 1 as int));
                assert(sp_split(post, sep) =~= fields.deep_view().push(
                    s@.subrange(start as int, i + 1 as int),
                ));
            }
        }
        i = i + 1;
    }
    let tok = s.substring_char(start, n);
    let owned = String::from_str(tok);
    let ghost old_fields = fields;
    fields.push(owned);
    proof {
        lemma_push_deep_view(old_fields, fields, owned);
        assert(s@.subrange(0, n as int) =~= s@);
    }
    fields
}

/// Split a file's text into its lines: split on `'\n'`, with a final empty
/// piece after a trailing newline dropped.
pub fn split_lines(s: &str) -> (r: Vec<String>)
    ensures
        r.deep_view() == sp_lines(s@),
{
    if s.unicode_len() == 0 {
        let r: Vec<String> = Vec::new();
        proof {
            assert(r.deep_view() =~= sp_lines(s@));
        }
        return r;
    }
    let mut parts = split_on(s, '\n');
    proof {
        lemma_split_len(s@, '\n');
    }
    let last_len = parts[parts.len() - 1].as_str().unicode_len();
    if last_len == 0 {
        let ghost pre = parts;
        let _ = parts.pop();
        proof {
            assert(parts.deep_view() =~= pre.deep_view().drop_last());
        }
    }
    parts
}

/// Character-by-character string equality, so that comparisons against the
/// format's keywords carry their meaning into the contracts.
pub fn str_eq(a: &str, b: &str) -> (r: bool)
    ensures
        r == (a@ == b@),
{
    let na = a.unicode_len();
    let nb = b.unicode_len();
    if na != nb {
        proof {
            assert(a@ != b@);
        }
        return false;
    }
    let mut i: usize = 0;
    while i < na
        invariant
            na == a@.len(),
            na == b@.len(),
            i <= na,
            forall|j: int| 0 <= j < i ==> a@[j] == b@[j],
        decreases na - i,
    {
        if a.get_char(i) != b.get_char(i) {
            return false;
        }
        i = i + 1;
    }
    proof {
        assert(a@ =~= b@);
    }
    true
}

} // verus!
