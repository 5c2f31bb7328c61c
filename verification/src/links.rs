use vstd::prelude::*;
use vstd::string::StringExecFns;

use crate::text::chars_string;
use crate::text::chars_vec;
use crate::text::push_chars;
use crate::urls::resolve_one;
use crate::urls::resolve_target;
use crate::urls::spec_url_parses;

verus! {

/// A markdown link is `[label](target)`, matched lazily and within one line:
/// after the opening `[`, the label ends at the first `](` that follows with
/// no newline in between; the target ends at the first `)` after that, again
/// with no newline in between.
///
/// `find_label_end(s, k)` is the position of the first such `](` at or after
/// `k`, and `None` when a newline or the end of the text comes first.
pub open spec fn find_label_end(s: Seq<char>, k: int) -> Option<int>
    decreases s.len() - k,
{
    if k < 0 || k >= s.len() {
        None
    } else if s[k] == ']' && k + 1 < s.len() && s[k + 1] == '(' {
        Some(k)
    } else if s[k] == '\n' {
        None
    } else {
        find_label_end(s, k + 1)
    }
}

/// The position of the first `)` at or after `k`, and `None` when a newline
/// or the end of the text comes first.
pub open spec fn find_close(s: Seq<char>, k: int) -> Option<int>
    decreases s.len() - k,
{
    if k < 0 || k >= s.len() {
        None
    } else if s[k] == ')' {
        Some(k)
    } else if s[k] == '\n' {
        None
    } else {
        find_close(s, k + 1)
    }
}

/// The label end and target end of a link whose `[` stands at `k`, when the
/// text from `k` forms one.
pub open spec fn link_parts(s: Seq<char>, k: int) -> Option<(int, int)> {
    match find_label_end(s, k + 1) {
        Some(i) => match find_close(s, i + 2) {
            Some(j) => Some((i, j)),
            None => None,
        },
        None => None,
    }
}

/// The text from position `k` on, with every markdown link target resolved
/// against `base` and everything else kept unchanged. Links do not overlap:
/// after a link the scan continues past its closing `)`.
pub open spec fn rewrite_from(s: Seq<char>, base: Seq<char>, k: int) -> Seq<char>
    decreases s.len() - k,
{
    if k < 0 || k >= s.len() {
        Seq::empty()
    } else if s[k] == '[' && link_parts(s, k) is Some {
        let (i, j) = link_parts(s, k)->0;
        if k < i && i + 1 < j && j < s.len() {
            s.subrange(k, i + 2) + resolve_target(base, s.subrange(i + 2, j)) + seq![')']
                + rewrite_from(s, base, j + 1)
        } else {
            seq![s[k]] + rewrite_from(s, base, k + 1)
        }
    } else {
        seq![s[k]] + rewrite_from(s, base, k + 1)
    }
}

/// The whole text, every markdown link target resolved against `base`.
pub open spec fn rewrite_links(s: Seq<char>, base: Seq<char>) -> Seq<char> {
    rewrite_from(s, base, 0)
}

/// Whether every markdown link target in `s` already parses as an absolute
/// URL.
pub open spec fn all_targets_absolute(s: Seq<char>) -> bool {
    forall|k: int|
        0 <= k < s.len() && s[k] == '[' && (#[trigger] link_parts(s, k)) is Some ==> {
            let (i, j) = link_parts(s, k)->0;
            spec_url_parses(s.subrange(i + 2, j))
        }
}

/// Law: link resolution is a no-op on text whose link targets are all
/// already absolute.
pub proof fn lemma_rewrite_links_noop(s: Seq<char>, base: Seq<char>)
    requires
        all_targets_absolute(s),
    ensures
        rewrite_links(s, base) == s,
{
    lemma_rewrite_from_noop(s, base, 0);
    assert(s.subrange(0, s.len() as int) =~= s);
}

proof fn lemma_rewrite_from_noop(s: Seq<char>, base: Seq<char>, k: int)
    requires
        all_targets_absolute(s),
        0 <= k <= s.len(),
    ensures
        rewrite_from(s, base, k) == s.subrange(k, s.len() as int),
    decreases s.len() - k,
{
    if k >= s.len() {
        assert(s.subrange(k, s.len() as int) =~= Seq::<char>::empty());
    } else if s[k] == '[' && link_parts(s, k) is Some {
        let (i, j) = link_parts(s, k)->0;
        lemma_find_label_end_props(s, k + 1);
        lemma_find_close_props(s, i + 2);
        assert(spec_url_parses(s.subrange(i + 2, j)));
        lemma_rewrite_from_noop(s, base, j + 1);
        assert(s.subrange(k, i + 2) + s.subrange(i + 2, j) + seq![')'] + s.subrange(
            j + 1,
            s.len() as int,
        ) =~= s.subrange(k, s.len() as int));
    } else {
        lemma_rewrite_from_noop(s, base, k + 1);
        assert(seq![s[k]] + s.subrange(k + 1, s.len() as int) =~= s.subrange(k, s.len() as int));
    }
}

proof fn lemma_find_label_end_props(s: Seq<char>, k: int)
    requires
        find_label_end(s, k) is Some,
    ensures
        ({
            let i = find_label_end(s, k)->0;
            &&& k <= i
            &&& i + 1 < s.len()
            &&& s[i] == ']'
            &&& s[i + 1] == '('
        }),
    decreases s.len() - k,
{
    if 0 <= k < s.len() {
        if !(s[k] == ']' && k + 1 < s.len() && s[k + 1] == '(') && s[k] != '\n' {
            lemma_find_label_end_props(s, k + 1);
        }
    }
}

proof fn lemma_find_close_props(s: Seq<char>, k: int)
    requires
        find_close(s, k) is Some,
    ensures
        ({
            let j = find_close(s, k)->0;
            &&& k <= j
            &&& j < s.len()
            &&& s[j] == ')'
        }),
    decreases s.len() - k,
{
    if 0 <= k < s.len() {
        if s[k] != ')' && s[k] != '\n' {
            lemma_find_close_props(s, k + 1);
        }
    }
}

fn find_label_end_exec(cs: &Vec<char>, start: usize) -> (r: Option<usize>)
    ensures
        r is Some ==> find_label_end(cs@, start as int) == Some(r->0 as int),
        r is None ==> find_label_end(cs@, start as int) is None,
{
    let mut k = start;
    while k < cs.len()
        invariant
            start <= k,
            find_label_end(cs@, start as int) == find_label_end(cs@, k as int),
        decreases cs@.len() - k,
    {
        let c = cs[k];
        if c == ']' && k + 1 < cs.len() && cs[k + 1] == '(' {
            return Some(k);
        }
        if c == '\n' {
            return None;
        }
        k = k + 1;
    }
    None
}

fn find_close_exec(cs: &Vec<char>, start: usize) -> (r: Option<usize>)
    ensures
        r is Some ==> find_close(cs@, start as int) == Some(r->0 as int),
        r is None ==> find_close(cs@, start as int) is None,
{
    let mut k = start;
    while k < cs.len()
        invariant
            start <= k,
            find_close(cs@, start as int) == find_close(cs@, k as int),
        decreases cs@.len() - k,
    {
        let c = cs[k];
        if c == ')' {
            return Some(k);
        }
        if c == '\n' {
            return None;
        }
        k = k + 1;
    }
    None
}

/// Rewrites every markdown link target in `text` via resolution against
/// `base`: an absolute target is kept unchanged, a relative one is joined
/// against `base`, and a malformed one is left as it was. Everything outside
/// link targets is kept, character for character.
pub fn resolve_links(text: &str, base: &str) -> (r: String)
    ensures
        r@ == rewrite_links(text@, base@),
{
    let cs = chars_vec(text);
    let mut out = String::new();
    let mut k: usize = 0;
    while k < cs.len()
        invariant
            k <= cs@.len(),
            cs@ == text@,
            out@ + rewrite_from(cs@, base@, k as int) == rewrite_links(text@, base@),
        decreases cs@.len() - k,
    {
        let ghost out0 = out@;
        let c = cs[k];
        let mut simple = true;
        if c == '[' {
            if let Some(i) = find_label_end_exec(&cs, k + 1) {
                proof {
                    lemma_find_label_end_props(cs@, k + 1 as int);
                }
                if let Some(j) = find_close_exec(&cs, i + 2) {
                    proof {
                        lemma_find_close_props(cs@, i + 2 as int);
                    }
                    push_chars(&mut out, &cs, k, i + 2);
                    let href = chars_string(&cs, i + 2, j);
                    let resolved = resolve_one(base, &href);
                    out.append(resolved.as_str());
                    out.push(')');
                    proof {
                        let s = cs@;
                        let b = base@;
                        assert(out@ =~= out0 + (s.subrange(k as int, i + 2) + resolve_target(
                            b,
                            s.subrange(i + 2, j as int),
                        ) + seq![')']));
                        assert(rewrite_from(s, b, k as int) == s.subrange(k as int, i + 2)
                            + resolve_target(b, s.subrange(i + 2, j as int)) + seq![')']
                            + rewrite_from(s, b, j + 1 as int));
                        assert(out@ + rewrite_from(s, b, j + 1 as int) =~= out0 + rewrite_from(
                            s,
                            b,
                            k as int,
                        ));
                    }
                    k = j + 1;
                    simple = false;
                }
            }
        }
        if simple {
            out.push(c);
            proof {
                let s = cs@;
                let b = base@;
                assert(rewrite_from(s, b, k as int) == seq![c] + rewrite_from(s, b, k + 1 as int));
                assert(out@ + rewrite_from(s, b, k + 1 as int) =~= out0 + rewrite_from(
                    s,
                    b,
                    k as int,
                ));
            }
            k = k + 1;
        }
    }
    proof {
        assert(out@ =~= rewrite_links(text@, base@));
    }
    out
}

} // verus!
