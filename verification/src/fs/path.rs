//! Path strings: splitting into components, and into parent and name.

use vstd::prelude::*;
use vstd::string::StrSliceExecFns;

verus! {

/// Number of characters before the first slash.
pub open spec fn word_len(s: Seq<char>) -> int
    decreases s.len(),
{
    if s.len() == 0 || s[0] == '/' {
        0
    } else {
        1 + word_len(s.drop_first())
    }
}

/// The non-empty components of a path, in order.
pub open spec fn components(s: Seq<char>) -> Seq<Seq<char>>
    decreases s.len(),
    via components_decreases
{
    if s.len() == 0 {
        Seq::empty()
    } else if s[0] == '/' {
        components(s.drop_first())
    } else {
        seq![s.subrange(0, word_len(s))] + components(s.skip(word_len(s)))
    }
}

#[via_fn]
proof fn components_decreases(s: Seq<char>) {
    if s.len() > 0 && s[0] != '/' {
        lemma_word_len_bound(s);
    }
}

pub proof fn lemma_word_len_bound(s: Seq<char>)
    ensures
        0 <= word_len(s) <= s.len(),
        s.len() > 0 && s[0] != '/' ==> word_len(s) > 0,
        word_len(s) < s.len() ==> s[word_len(s)] == '/',
        forall|k: int| 0 <= k < word_len(s) ==> #[trigger] s[k] != '/',
    decreases s.len(),
{
    if s.len() > 0 && s[0] != '/' {
        let t = s.drop_first();
        lemma_word_len_bound(t);
        assert forall|k: int| 0 <= k < word_len(s) implies #[trigger] s[k] != '/' by {
            if k > 0 {
                assert(t[k - 1] != '/');
            }
        }
        if word_len(s) < s.len() {
            assert(t[word_len(t)] == '/');
        }
    }
}

/// A run of characters without a slash, up to a slash or the end, is a word.
pub proof fn lemma_word_len(s: Seq<char>, n: int)
    requires
        0 <= n <= s.len(),
        forall|k: int| 0 <= k < n ==> #[trigger] s[k] != '/',
        n < s.len() ==> s[n] == '/',
    ensures
        word_len(s) == n,
{
    lemma_word_len_bound(s);
    if word_len(s) < n {
        assert(s[word_len(s)] != '/');
    } else if word_len(s) > n {
        assert(s[n] == '/');
    }
}

/// Where the last slash is; -1 if there is none.
pub open spec fn last_slash(s: Seq<char>) -> int
    decreases s.len(),
{
    if s.len() == 0 {
        -1
    } else if s.last() == '/' {
        s.len() - 1
    } else {
        last_slash(s.drop_last())
    }
}

/// The directory part of a path: what precedes the last slash, or the root.
pub open spec fn parent_of(s: Seq<char>) -> Seq<char> {
    if last_slash(s) <= 0 {
        seq!['/']
    } else {
        s.subrange(0, last_slash(s))
    }
}

/// The last part of a path: what follows the last slash.
pub open spec fn name_of(s: Seq<char>) -> Seq<char> {
    s.skip(last_slash(s) + 1)
}

pub proof fn lemma_last_slash(s: Seq<char>)
    ensures
        -1 <= last_slash(s) < s.len(),
        last_slash(s) >= 0 ==> s[last_slash(s)] == '/',
        forall|k: int| last_slash(s) < k < s.len() ==> #[trigger] s[k] != '/',
    decreases s.len(),
{
    if s.len() > 0 && s.last() != '/' {
        let t = s.drop_last();
        lemma_last_slash(t);
        assert forall|k: int| last_slash(s) < k < s.len() implies #[trigger] s[k] != '/' by {
            if k < t.len() {
                assert(t[k] != '/');
            }
        }
    }
}

/// Splits a path into (parent path, file name).
pub fn split_path(path: &str) -> (r: (&str, &str))
    ensures
        r.0@ == parent_of(path@),
        r.1@ == name_of(path@),
{
    let n: usize = path.unicode_len();
    let mut i: usize = n;
    assert(path@.subrange(0, n as int) =~= path@);
    while i > 0
        invariant
            i <= n == path@.len(),
            last_slash(path@) == last_slash(path@.subrange(0, i as int)),
        decreases i,
    {
        let ghost s = path@.subrange(0, i as int);
        if path.get_char(i - 1) == '/' {
            assert(s.last() == '/');
            let name = path.substring_char(i, n);
            assert(name@ =~= path@.skip(i as int));
            if i == 1 {
                proof {
                    reveal_strlit("/");
                    assert("/"@ =~= seq!['/']);
                }
                return ("/", name);
            }
            return (path.substring_char(0, i - 1), name);
        }
        assert(s.drop_last() =~= path@.subrange(0, i - 1));
        i -= 1;
    }
    proof {
        reveal_strlit("/");
        assert("/"@ =~= seq!['/']);
        assert(path@.skip(0) =~= path@);
    }
    ("/", path)
}

/// The last part of a path contains no slash, and parent and name together are
/// the path.
pub proof fn law_split_path(s: Seq<char>)
    ensures
        !name_of(s).contains('/'),
        last_slash(s) > 0 ==> parent_of(s) + seq!['/'] + name_of(s) == s,
        last_slash(s) == 0 ==> seq!['/'] + name_of(s) == s,
        last_slash(s) < 0 ==> name_of(s) == s,
{
    lemma_last_slash(s);
    let n = name_of(s);
    assert forall|k: int| 0 <= k < n.len() implies #[trigger] n[k] != '/' by {
        assert(n[k] == s[last_slash(s) + 1 + k]);
    }
    if last_slash(s) > 0 {
        assert(parent_of(s) + seq!['/'] + name_of(s) =~= s);
    } else if last_slash(s) == 0 {
        assert(seq!['/'] + name_of(s) =~= s);
    } else {
        assert(name_of(s) =~= s);
    }
}

/// A path without the slashes at its end.
pub open spec fn without_slashes(s: Seq<char>) -> Seq<char>
    decreases s.len(),
{
    if s.len() > 0 && s.last() == '/' {
        without_slashes(s.drop_last())
    } else {
        s
    }
}

/// A path without the slashes at its end.
pub fn trim_slashes(path: &str) -> (r: &str)
    ensures
        r@ == without_slashes(path@),
{
    let n: usize = path.unicode_len();
    let mut i: usize = n;
    assert(path@.take(n as int) =~= path@);
    while i > 0
        invariant
            n == path@.len(),
            i <= n,
            without_slashes(path@) == without_slashes(path@.take(i as int)),
        ensures
            i <= n,
            without_slashes(path@) == path@.take(i as int),
        decreases i,
    {
        assert(path@.take(i as int).last() == path@[i - 1]);
        assert(path@.take(i as int).drop_last() =~= path@.take(i - 1));
        if path.get_char(i - 1) != '/' {
            break;
        }
        i = i - 1;
    }
    let r = path.substring_char(0, i);
    assert(r@ =~= path@.take(i as int));
    r
}

/// A name behind a slash is one more component.
proof fn lemma_one_more_component(p: Seq<char>, name: Seq<char>)
    requires
        name.len() > 0,
        !name.contains('/'),
    ensures
        components(p + seq!['/'] + name) == components(p).push(name),
    decreases p.len(),
{
    let s = p + seq!['/'] + name;
    if p.len() == 0 {
        assert(s.drop_first() =~= name);
        lemma_single_component(name);
        assert(components(p).push(name) =~= seq![name]);
    } else if p[0] == '/' {
        assert(s.drop_first() =~= p.drop_first() + seq!['/'] + name);
        lemma_one_more_component(p.drop_first(), name);
    } else {
        let w = word_len(p);
        lemma_word_len_bound(p);
        assert forall|k: int| 0 <= k < w implies #[trigger] s[k] != '/' by {
            assert(s[k] == p[k]);
        }
        assert(s[w] == '/');
        lemma_word_len(s, w);
        assert(s.subrange(0, w) =~= p.subrange(0, w));
        assert(s.skip(w) =~= p.skip(w) + seq!['/'] + name);
        lemma_one_more_component(p.skip(w), name);
        assert(components(s) =~= components(p).push(name));
    }
}

/// A name is one component.
proof fn lemma_single_component(name: Seq<char>)
    requires
        name.len() > 0,
        !name.contains('/'),
    ensures
        components(name) == seq![name],
{
    assert forall|k: int| 0 <= k < name.len() implies #[trigger] name[k] != '/' by {
        assert(name.contains(name[k]));
    }
    lemma_word_len(name, name.len() as int);
    assert(name.subrange(0, name.len() as int) =~= name);
    assert(name.skip(name.len() as int) =~= Seq::<char>::empty());
    assert(components(Seq::<char>::empty()) =~= Seq::empty());
    assert(components(name) =~= seq![name]);
}

/// A slash at the end is no component.
proof fn lemma_slash_at_end(p: Seq<char>)
    ensures
        components(p.push('/')) == components(p),
    decreases p.len(),
{
    let s = p.push('/');
    if p.len() == 0 {
        assert(s.drop_first() =~= p);
    } else if p[0] == '/' {
        assert(s.drop_first() =~= p.drop_first().push('/'));
        lemma_slash_at_end(p.drop_first());
    } else {
        let w = word_len(p);
        lemma_word_len_bound(p);
        assert forall|k: int| 0 <= k < w implies #[trigger] s[k] != '/' by {
            assert(s[k] == p[k]);
        }
        assert(s[w] == '/');
        lemma_word_len(s, w);
        assert(s.subrange(0, w) =~= p.subrange(0, w));
        assert(s.skip(w) =~= p.skip(w).push('/'));
        lemma_slash_at_end(p.skip(w));
    }
}

/// Slashes at the end of a path decide nothing.
pub proof fn law_trailing_slashes(s: Seq<char>)
    ensures
        components(without_slashes(s)) == components(s),
    decreases s.len(),
{
    if s.len() > 0 && s.last() == '/' {
        law_trailing_slashes(s.drop_last());
        lemma_slash_at_end(s.drop_last());
        assert(s.drop_last().push('/') =~= s);
    }
}

/// The components of a path that names something are those of its parent, and its
/// name.
pub proof fn law_components_of_parent(s: Seq<char>)
    requires
        name_of(s).len() > 0,
    ensures
        components(s) == components(parent_of(s)).push(name_of(s)),
{
    law_split_path(s);
    let name = name_of(s);
    if last_slash(s) > 0 {
        lemma_one_more_component(parent_of(s), name);
    } else {
        let none = Seq::<char>::empty();
        assert(seq!['/'].drop_first() =~= none);
        assert(components(none) =~= Seq::empty());
        assert(components(parent_of(s)) =~= Seq::empty());
        if last_slash(s) == 0 {
            assert(none + seq!['/'] + name =~= s);
            lemma_one_more_component(none, name);
        } else {
            lemma_single_component(name);
        }
        assert(components(s) =~= components(parent_of(s)).push(name));
    }
}

} // verus!
