//! Idempotent synchronization of per-key routing entries into the shared
//! configuration file. An entry is a block
//!
//! ```text
//!
//! Host *
//!   IdentityFile <absolute-path>
//! ```
//!
//! with a leading blank line. Insertion appends the block only when the
//! file does not already contain it. Removal works at line granularity:
//! where the whole block stands, its three lines go together, and a bare
//! identity line goes alone. A line is matched as the whole identity line,
//! never by a path substring: a substring match would also drop the entry
//! of any key whose path merely extends the removed one, while whole-line
//! matching provably never touches the entry of a different path (see
//! [`lemma_remove_entry_noninterference`]).

use vstd::prelude::*;
use vstd::string::StringExecFns;

use crate::strutil::contains_seq;
use crate::strutil::contains_sub;
use crate::strutil::join_lines;
use crate::strutil::join_lines_spec;
use crate::strutil::lemma_join_split_roundtrip;
use crate::strutil::lemma_split_lines_nonempty;
use crate::strutil::lemma_split_lines_no_newline;
use crate::strutil::lemma_split_join_roundtrip;
use crate::strutil::lemma_split_concat;
use crate::strutil::lemma_split_prefix_line;
use crate::strutil::line_views;
use crate::strutil::split_lines;
use crate::strutil::split_lines_spec;
use crate::strutil::str_eq;

verus! {

/// The line that ties a routing entry to a key: two spaces of indentation,
/// the directive, and the private key's absolute path.
pub open spec fn identity_line_spec(path: Seq<char>) -> Seq<char> {
    "  IdentityFile "@ + path
}

/// The full routing block appended for a key, with its leading blank line.
pub open spec fn entry_block_spec(path: Seq<char>) -> Seq<char> {
    seq!['\n'] + "Host *"@ + seq!['\n'] + identity_line_spec(path) + seq!['\n']
}

/// Builds the identity line of `path`.
pub fn identity_line(path: &str) -> (r: String)
    ensures
        r@ == identity_line_spec(path@),
{
    let mut r = "  IdentityFile ".to_owned();
    r.append(path);
    r
}

/// Builds the routing block of `path`.
pub fn entry_block(path: &str) -> (r: String)
    ensures
        r@ == entry_block_spec(path@),
{
    let mut r = "\nHost *\n".to_owned();
    r.append("  IdentityFile ");
    r.append(path);
    r.append("\n");
    proof {
        reveal_strlit("\nHost *\n");
        reveal_strlit("Host *");
        reveal_strlit("\n");
        assert(r@ =~= entry_block_spec(path@));
    }
    r
}

/// The configuration text after inserting the entry for `path`: unchanged
/// when the block is already present, else the block appended.
pub open spec fn add_entry_spec(content: Seq<char>, path: Seq<char>) -> Seq<char> {
    if contains_seq(content, entry_block_spec(path)) {
        content
    } else {
        content + entry_block_spec(path)
    }
}

/// The lines surviving removal of the entry with identity line `ident`:
/// where the entry's whole block stands — a blank line, the host line, the
/// identity line — all three of its lines go together; a bare identity
/// line goes alone; every other line is kept, in order.
pub open spec fn strip_entry_lines(ls: Seq<Seq<char>>, ident: Seq<char>) -> Seq<Seq<char>>
    decreases ls.len(),
{
    if ls.len() == 0 {
        Seq::empty()
    } else if ls.len() >= 3 && ls[0] == Seq::<char>::empty() && ls[1] == "Host *"@ && ls[2]
        == ident {
        strip_entry_lines(ls.skip(3), ident)
    } else if ls[0] == ident {
        strip_entry_lines(ls.skip(1), ident)
    } else {
        seq![ls[0]] + strip_entry_lines(ls.skip(1), ident)
    }
}

/// The configuration text after removing the entry for `path`: its lines
/// with the entry's block (or a bare identity line) stripped, joined
/// again.
pub open spec fn remove_entry_spec(content: Seq<char>, path: Seq<char>) -> Seq<char> {
    join_lines_spec(strip_entry_lines(split_lines_spec(content), identity_line_spec(path)))
}

/// Inserts the routing entry for `path` into the configuration text.
pub fn add_entry_text(content: &str, path: &str) -> (r: String)
    ensures
        r@ == add_entry_spec(content@, path@),
{
    let block = entry_block(path);
    if contains_sub(content, block.as_str()) {
        content.to_owned()
    } else {
        let mut r = content.to_owned();
        r.append(block.as_str());
        r
    }
}

/// Removes the routing entry for `path` from the configuration text.
pub fn remove_entry_text(content: &str, path: &str) -> (r: String)
    ensures
        r@ == remove_entry_spec(content@, path@),
{
    let ident = identity_line(path);
    let lines = split_lines(content);
    let mut kept: Vec<String> = Vec::new();
    let mut k: usize = 0;
    let ghost lv = line_views(lines@);
    let ghost id = identity_line_spec(path@);
    proof {
        assert(lv.skip(0) =~= lv);
        assert(line_views(kept@) =~= Seq::<Seq<char>>::empty());
        assert(Seq::<Seq<char>>::empty() + strip_entry_lines(lv, id) =~= strip_entry_lines(
            lv,
            id,
        ));
    }
    while k < lines.len()
        invariant
            ident@ == id,
            id == identity_line_spec(path@),
            lv == line_views(lines@),
            lv == split_lines_spec(content@),
            0 <= k <= lines@.len(),
            strip_entry_lines(lv, id) == line_views(kept@) + strip_entry_lines(
                lv.skip(k as int),
                id,
            ),
        decreases lines@.len() - k,
    {
        let ghost rem = lv.skip(k as int);
        proof {
            assert(rem[0] == lv[k as int]);
            assert(rem.skip(1) =~= lv.skip(k as int + 1));
            assert(rem[0].len() == 0 ==> rem[0] =~= Seq::<char>::empty());
        }
        if lines.len() - k >= 3 && lines[k].as_str().unicode_len() == 0 && str_eq(
            lines[k + 1].as_str(),
            "Host *",
        ) && str_eq(lines[k + 2].as_str(), ident.as_str()) {
            proof {
                assert(rem[1] == lv[k as int + 1]);
                assert(rem[2] == lv[k as int + 2]);
                assert(rem.skip(3) =~= lv.skip(k as int + 3));
                assert(strip_entry_lines(rem, id) == strip_entry_lines(
                    lv.skip(k as int + 3),
                    id,
                ));
            }
            k = k + 3;
        } else if str_eq(lines[k].as_str(), ident.as_str()) {
            proof {
                assert(rem.len() >= 3 ==> rem[1] == lv[k as int + 1] && rem[2] == lv[k as int
                    + 2]);
                assert(strip_entry_lines(rem, id) == strip_entry_lines(
                    lv.skip(k as int + 1),
                    id,
                ));
            }
            k = k + 1;
        } else {
            let line = lines[k].clone();
            proof {
                assert(rem.len() >= 3 ==> rem[1] == lv[k as int + 1] && rem[2] == lv[k as int
                    + 2]);
                assert(strip_entry_lines(rem, id) == seq![rem[0]] + strip_entry_lines(
                    lv.skip(k as int + 1),
                    id,
                ));
                assert(line_views(kept@.push(line)) =~= line_views(kept@) + seq![lv[k as int]]);
                assert(line_views(kept@) + (seq![rem[0]] + strip_entry_lines(
                    lv.skip(k as int + 1),
                    id,
                )) =~= (line_views(kept@) + seq![lv[k as int]]) + strip_entry_lines(
                    lv.skip(k as int + 1),
                    id,
                ));
            }
            kept.push(line);
            k = k + 1;
        }
    }
    proof {
        assert(lv.skip(lines@.len() as int) =~= Seq::<Seq<char>>::empty());
        assert(line_views(kept@) + Seq::<Seq<char>>::empty() =~= line_views(kept@));
    }
    join_lines(&kept)
}

proof fn lemma_strip_all_kept(ls: Seq<Seq<char>>, ident: Seq<char>)
    requires
        forall|i: int| 0 <= i < ls.len() ==> #[trigger] ls[i] != ident,
    ensures
        strip_entry_lines(ls, ident) == ls,
    decreases ls.len(),
{
    if ls.len() > 0 {
        assert(forall|i: int| 0 <= i < ls.skip(1).len() ==> #[trigger] ls.skip(1)[i] == ls[i
            + 1]);
        lemma_strip_all_kept(ls.skip(1), ident);
        assert(seq![ls[0]] + ls.skip(1) =~= ls);
    }
}

proof fn lemma_strip_no_ident(ls: Seq<Seq<char>>, ident: Seq<char>)
    ensures
        forall|j: int|
            0 <= j < strip_entry_lines(ls, ident).len() ==> #[trigger] strip_entry_lines(
                ls,
                ident,
            )[j] != ident,
    decreases ls.len(),
{
    if ls.len() == 0 {
    } else if ls.len() >= 3 && ls[0] == Seq::<char>::empty() && ls[1] == "Host *"@ && ls[2]
        == ident {
        lemma_strip_no_ident(ls.skip(3), ident);
        assert(strip_entry_lines(ls, ident) == strip_entry_lines(ls.skip(3), ident));
        assert forall|j: int| 0 <= j < strip_entry_lines(ls, ident).len() implies #[trigger] strip_entry_lines(
            ls,
            ident,
        )[j] != ident by {
            assert(strip_entry_lines(ls, ident)[j] == strip_entry_lines(ls.skip(3), ident)[j]);
        }
    } else if ls[0] == ident {
        lemma_strip_no_ident(ls.skip(1), ident);
        assert forall|j: int| 0 <= j < strip_entry_lines(ls, ident).len() implies #[trigger] strip_entry_lines(
            ls,
            ident,
        )[j] != ident by {
            assert(strip_entry_lines(ls, ident)[j] == strip_entry_lines(ls.skip(1), ident)[j]);
        }
    } else {
        lemma_strip_no_ident(ls.skip(1), ident);
        let sub = strip_entry_lines(ls.skip(1), ident);
        assert forall|j: int| 0 <= j < strip_entry_lines(ls, ident).len() implies #[trigger] strip_entry_lines(
            ls,
            ident,
        )[j] != ident by {
            if j > 0 {
                assert(strip_entry_lines(ls, ident)[j] == sub[j - 1]);
            }
        }
    }
}

proof fn lemma_strip_no_newline(ls: Seq<Seq<char>>, ident: Seq<char>)
    requires
        forall|i: int| 0 <= i < ls.len() ==> !(#[trigger] ls[i]).contains('\n'),
    ensures
        forall|j: int|
            0 <= j < strip_entry_lines(ls, ident).len() ==> !(#[trigger] strip_entry_lines(
                ls,
                ident,
            )[j]).contains('\n'),
    decreases ls.len(),
{
    if ls.len() == 0 {
    } else {
        assert(forall|i: int| 0 <= i < ls.skip(1).len() ==> #[trigger] ls.skip(1)[i] == ls[i
            + 1]);
        assert(forall|i: int|
            3 <= ls.len() ==> 0 <= i < ls.skip(3).len() ==> #[trigger] ls.skip(3)[i] == ls[i
                + 3]);
        if ls.len() >= 3 && ls[0] == Seq::<char>::empty() && ls[1] == "Host *"@ && ls[2]
            == ident {
            lemma_strip_no_newline(ls.skip(3), ident);
            assert forall|j: int| 0 <= j < strip_entry_lines(ls, ident).len() implies !(
            #[trigger] strip_entry_lines(ls, ident)[j]).contains('\n') by {
                assert(strip_entry_lines(ls, ident)[j] == strip_entry_lines(
                    ls.skip(3),
                    ident,
                )[j]);
            }
        } else if ls[0] == ident {
            lemma_strip_no_newline(ls.skip(1), ident);
            assert forall|j: int| 0 <= j < strip_entry_lines(ls, ident).len() implies !(
            #[trigger] strip_entry_lines(ls, ident)[j]).contains('\n') by {
                assert(strip_entry_lines(ls, ident)[j] == strip_entry_lines(
                    ls.skip(1),
                    ident,
                )[j]);
            }
        } else {
            lemma_strip_no_newline(ls.skip(1), ident);
            let sub = strip_entry_lines(ls.skip(1), ident);
            assert forall|j: int| 0 <= j < strip_entry_lines(ls, ident).len() implies !(
            #[trigger] strip_entry_lines(ls, ident)[j]).contains('\n') by {
                if j > 0 {
                    assert(strip_entry_lines(ls, ident)[j] == sub[j - 1]);
                }
            }
        }
    }
}

proof fn lemma_strip_keeps_other(ls: Seq<Seq<char>>, ident: Seq<char>, other: Seq<char>)
    requires
        other != ident,
        other.len() > 0,
        other != "Host *"@,
        ls.contains(other),
    ensures
        strip_entry_lines(ls, ident).contains(other),
    decreases ls.len(),
{
    let j = choose|j: int| 0 <= j < ls.len() && ls[j] == other;
    assert(forall|i: int| 0 <= i < ls.skip(1).len() ==> #[trigger] ls.skip(1)[i] == ls[i + 1]);
    if ls.len() >= 3 && ls[0] == Seq::<char>::empty() && ls[1] == "Host *"@ && ls[2] == ident {
        assert(forall|i: int| 0 <= i < ls.skip(3).len() ==> #[trigger] ls.skip(3)[i] == ls[i
            + 3]);
        assert(j >= 3);
        assert(ls.skip(3)[j - 3] == other);
        assert(ls.skip(3).contains(other));
        lemma_strip_keeps_other(ls.skip(3), ident, other);
    } else if ls[0] == ident {
        assert(j >= 1);
        assert(ls.skip(1)[j - 1] == other);
        assert(ls.skip(1).contains(other));
        lemma_strip_keeps_other(ls.skip(1), ident, other);
    } else {
        let res = strip_entry_lines(ls, ident);
        if j == 0 {
            assert(res[0] == other);
        } else {
            assert(ls.skip(1)[j - 1] == other);
            assert(ls.skip(1).contains(other));
            lemma_strip_keeps_other(ls.skip(1), ident, other);
            let sub = strip_entry_lines(ls.skip(1), ident);
            let t = choose|t: int| 0 <= t < sub.len() && sub[t] == other;
            assert(res[t + 1] == other);
        }
    }
}

/// Removing an entry that is not in the configuration text leaves the text
/// byte-identical: removal of an absent entry is a no-op.
pub proof fn lemma_remove_entry_absent(content: Seq<char>, path: Seq<char>)
    requires
        forall|i: int|
            0 <= i < split_lines_spec(content).len() ==> #[trigger] split_lines_spec(content)[i]
                != identity_line_spec(path),
    ensures
        remove_entry_spec(content, path) == content,
{
    lemma_strip_all_kept(split_lines_spec(content), identity_line_spec(path));
    lemma_join_split_roundtrip(content);
}

/// The lines of the text after removal are exactly the surviving lines of
/// the text before it, in their original order: removal never rewrites,
/// reorders or drops any other line. When nothing but removed entries made
/// up the text, the result is the empty text.
pub proof fn lemma_remove_entry_lines(content: Seq<char>, path: Seq<char>)
    ensures
        strip_entry_lines(split_lines_spec(content), identity_line_spec(path)).len() >= 1
            ==> split_lines_spec(remove_entry_spec(content, path)) == strip_entry_lines(
            split_lines_spec(content),
            identity_line_spec(path),
        ),
        strip_entry_lines(split_lines_spec(content), identity_line_spec(path)).len() == 0
            ==> remove_entry_spec(content, path) == Seq::<char>::empty(),
{
    let ls = split_lines_spec(content);
    let ident = identity_line_spec(path);
    let kept = strip_entry_lines(ls, ident);
    lemma_split_lines_no_newline(content);
    if kept.len() >= 1 {
        lemma_strip_no_newline(ls, ident);
        lemma_split_join_roundtrip(kept);
    }
}

/// No line of the text after removal is the removed entry's identity line.
pub proof fn lemma_remove_entry_removes(content: Seq<char>, path: Seq<char>)
    ensures
        forall|i: int|
            0 <= i < split_lines_spec(remove_entry_spec(content, path)).len()
                ==> #[trigger] split_lines_spec(remove_entry_spec(content, path))[i]
                != identity_line_spec(path),
{
    let ls = split_lines_spec(content);
    let ident = identity_line_spec(path);
    let kept = strip_entry_lines(ls, ident);
    lemma_remove_entry_lines(content, path);
    if kept.len() >= 1 {
        lemma_strip_no_ident(ls, ident);
    } else {
        let r = remove_entry_spec(content, path);
        assert(split_lines_spec(r) == seq![Seq::<char>::empty()]);
        reveal_strlit("  IdentityFile ");
        assert(identity_line_spec(path).len() >= 15);
    }
}

/// The identity line of a path without `'\n'` holds no `'\n'` itself.
proof fn lemma_identity_line_no_newline(path: Seq<char>)
    requires
        !path.contains('\n'),
    ensures
        !identity_line_spec(path).contains('\n'),
{
    reveal_strlit("  IdentityFile ");
    let pre = "  IdentityFile "@;
    let l = pre + path;
    if l.contains('\n') {
        let j = choose|j: int| 0 <= j < l.len() && l[j] == '\n';
        if j < pre.len() {
            assert(pre[j] == '\n');
        } else {
            assert(path[j - pre.len()] == '\n');
        }
    }
}

/// The lines of a routing block: a blank line, the host line, the
/// identity line, and the empty tail after the final `'\n'`.
proof fn lemma_split_entry_block(path: Seq<char>)
    requires
        !path.contains('\n'),
    ensures
        split_lines_spec(entry_block_spec(path)) == seq![
            Seq::<char>::empty(),
            "Host *"@,
            identity_line_spec(path),
            Seq::<char>::empty(),
        ],
{
    let host = "Host *"@;
    let ident = identity_line_spec(path);
    lemma_identity_line_no_newline(path);
    assert(!host.contains('\n')) by {
        reveal_strlit("Host *");
        if host.contains('\n') {
            let j = choose|j: int| 0 <= j < host.len() && host[j] == '\n';
        }
    }
    let r2 = ident + seq!['\n'] + Seq::<char>::empty();
    lemma_split_prefix_line(ident, Seq::<char>::empty());
    assert(split_lines_spec(r2) =~~= seq![ident, Seq::<char>::empty()]) by {
        assert(split_lines_spec(Seq::<char>::empty()) == seq![Seq::<char>::empty()]);
        assert(seq![ident] + seq![Seq::<char>::empty()] =~~= seq![ident, Seq::<char>::empty()]);
    }
    let r1 = host + seq!['\n'] + r2;
    lemma_split_prefix_line(host, r2);
    assert(split_lines_spec(r1) =~~= seq![host, ident, Seq::<char>::empty()]);
    let r0 = Seq::<char>::empty() + seq!['\n'] + r1;
    lemma_split_prefix_line(Seq::<char>::empty(), r1);
    assert(split_lines_spec(r0) =~~= seq![
        Seq::<char>::empty(),
        host,
        ident,
        Seq::<char>::empty(),
    ]);
    assert(entry_block_spec(path) =~= r0);
}

/// After inserting the entry for `path`, its identity line stands as a
/// full line of the configuration text — whether this insertion appended
/// the block or an earlier one already had. Removal and the listing work
/// at line granularity, so this is what makes an inserted entry visible to
/// them.
pub proof fn lemma_add_entry_line_present(content: Seq<char>, path: Seq<char>)
    requires
        !path.contains('\n'),
    ensures
        split_lines_spec(add_entry_spec(content, path)).contains(identity_line_spec(path)),
{
    let block = entry_block_spec(path);
    let ident = identity_line_spec(path);
    lemma_split_entry_block(path);
    let sb = split_lines_spec(block);
    if contains_seq(content, block) {
        let i = choose|i: int|
            0 <= i && i + block.len() <= content.len() && #[trigger] content.subrange(
                i,
                i + block.len() as int,
            ) == block;
        let pre = content.take(i);
        let suf = content.skip(i + block.len());
        assert(content =~= pre + (block + suf));
        lemma_split_concat(block, suf);
        let ss = split_lines_spec(suf);
        let sbs = split_lines_spec(block + suf);
        assert(sb.drop_last() =~~= seq![Seq::<char>::empty(), "Host *"@, ident]);
        assert(sbs[2] == ident);
        lemma_split_concat(pre, block + suf);
        let sp = split_lines_spec(pre);
        lemma_split_lines_nonempty(pre);
        assert(split_lines_spec(content)[sp.len() as int + 1] == sbs.skip(1)[1]);
        assert(sbs.skip(1)[1] == ident);
        assert(split_lines_spec(content).contains(ident));
    } else {
        lemma_split_concat(content, block);
        let sc = split_lines_spec(content);
        lemma_split_lines_nonempty(content);
        assert(sb[0] =~= Seq::<char>::empty());
        assert(split_lines_spec(content + block)[sc.len() as int + 1] == sb.skip(1)[1]);
        assert(sb.skip(1)[1] == ident);
        assert(split_lines_spec(content + block).contains(ident));
    }
}

/// Insertion never loses a line: every line of the text is still a line
/// after an entry is inserted. An appended block opens with `'\n'`, so
/// even the text's final line is left intact.
pub proof fn lemma_add_entry_keeps_lines(content: Seq<char>, path: Seq<char>, l: Seq<char>)
    requires
        !path.contains('\n'),
        split_lines_spec(content).contains(l),
    ensures
        split_lines_spec(add_entry_spec(content, path)).contains(l),
{
    let block = entry_block_spec(path);
    if !contains_seq(content, block) {
        lemma_split_entry_block(path);
        lemma_split_concat(content, block);
        let sc = split_lines_spec(content);
        let sb = split_lines_spec(block);
        lemma_split_lines_nonempty(content);
        let i = choose|i: int| 0 <= i < sc.len() && sc[i] == l;
        if i < sc.len() - 1 {
            assert(split_lines_spec(content + block)[i] == sc.drop_last()[i]);
            assert(sc.drop_last()[i] == l);
        } else {
            assert(sc.last() + sb[0] =~= l);
            assert(split_lines_spec(content + block)[sc.len() as int - 1] == sc.last() + sb[0]);
        }
    }
}

/// The lifecycle at key-name granularity: insert the entries of two
/// distinct names (in this order, from any starting text), then remove
/// the second — the first name's entry is still a line of the
/// configuration text. Holds for any root and names without `'\n'`, even
/// when one name is a prefix of the other.
pub proof fn lemma_lifecycle_preserves_other_key(
    content: Seq<char>,
    root: Seq<char>,
    n1: Seq<char>,
    n2: Seq<char>,
)
    requires
        n1 != n2,
        !root.contains('\n'),
        !n1.contains('\n'),
        !n2.contains('\n'),
    ensures
        split_lines_spec(
            remove_entry_spec(
                add_entry_spec(
                    add_entry_spec(content, crate::paths::private_path_spec(root, n1)),
                    crate::paths::private_path_spec(root, n2),
                ),
                crate::paths::private_path_spec(root, n2),
            ),
        ).contains(identity_line_spec(crate::paths::private_path_spec(root, n1))),
{
    let p1 = crate::paths::private_path_spec(root, n1);
    let p2 = crate::paths::private_path_spec(root, n2);
    crate::paths::lemma_private_path_injective(root, n1, n2);
    crate::paths::lemma_private_path_no_newline(root, n1);
    crate::paths::lemma_private_path_no_newline(root, n2);
    lemma_add_entry_line_present(content, p1);
    let c1 = add_entry_spec(content, p1);
    lemma_add_entry_keeps_lines(c1, p2, identity_line_spec(p1));
    let c2 = add_entry_spec(c1, p2);
    lemma_remove_entry_noninterference(c2, p2, p1);
}

/// Identity lines are injective in the path: entries for different paths
/// are carried by different lines, even when one path is a prefix of the
/// other.
pub proof fn lemma_identity_line_injective(p1: Seq<char>, p2: Seq<char>)
    requires
        p1 != p2,
    ensures
        identity_line_spec(p1) != identity_line_spec(p2),
{
    if identity_line_spec(p1) == identity_line_spec(p2) {
        let pre = "  IdentityFile "@;
        assert(pre + p1 == pre + p2);
        assert((pre + p1).len() == pre.len() + p1.len());
        assert((pre + p2).len() == pre.len() + p2.len());
        assert(p1.len() == p2.len());
        assert(p1 =~= p2) by {
            assert(forall|i: int|
                0 <= i < p1.len() ==> p1[i] == (pre + p1)[pre.len() + i] && p2[i] == (pre
                    + p2)[pre.len() + i]);
        }
    }
}

/// Removing the entry of one path never touches a line that carries the
/// entry of a different path: every such line survives the removal.
pub proof fn lemma_remove_entry_noninterference(content: Seq<char>, p1: Seq<char>, p2: Seq<char>)
    requires
        p1 != p2,
        split_lines_spec(content).contains(identity_line_spec(p2)),
    ensures
        split_lines_spec(remove_entry_spec(content, p1)).contains(identity_line_spec(p2)),
{
    let ls = split_lines_spec(content);
    let i1 = identity_line_spec(p1);
    let i2 = identity_line_spec(p2);
    lemma_identity_line_injective(p1, p2);
    assert(i2.len() > 0) by {
        reveal_strlit("  IdentityFile ");
    }
    assert(i2 != "Host *"@) by {
        reveal_strlit("  IdentityFile ");
        reveal_strlit("Host *");
        assert(i2[0] == ' ');
        assert(("Host *"@)[0] == 'H');
    }
    lemma_strip_keeps_other(ls, i1, i2);
    lemma_remove_entry_lines(content, p1);
    let kept = strip_entry_lines(ls, i1);
    let t = choose|t: int| 0 <= t < kept.len() && kept[t] == i2;
}

/// After insertion the configuration text contains the entry's block.
pub proof fn lemma_add_entry_present(content: Seq<char>, path: Seq<char>)
    ensures
        contains_seq(add_entry_spec(content, path), entry_block_spec(path)),
{
    let b = entry_block_spec(path);
    if contains_seq(content, b) {
    } else {
        let c1 = content + b;
        assert(c1.subrange(content.len() as int, content.len() as int + b.len() as int) =~= b);
        assert(contains_seq(c1, b));
    }
}

/// A text that contains a pattern still contains it after more text is
/// appended.
pub proof fn lemma_contains_append(hay: Seq<char>, ext: Seq<char>, needle: Seq<char>)
    requires
        contains_seq(hay, needle),
    ensures
        contains_seq(hay + ext, needle),
{
    let i = choose|i: int|
        0 <= i && i + needle.len() <= hay.len() && #[trigger] hay.subrange(
            i,
            i + needle.len() as int,
        ) == needle;
    assert((hay + ext).subrange(i, i + needle.len() as int) =~= needle);
}

/// Inserting the same entry twice leaves the text exactly as one insertion
/// leaves it: insertion is idempotent.
pub proof fn lemma_add_entry_idempotent(content: Seq<char>, path: Seq<char>)
    ensures
        add_entry_spec(add_entry_spec(content, path), path) == add_entry_spec(content, path),
{
    lemma_add_entry_present(content, path);
}

/// After inserting entries for two paths, in either order and from any
/// starting text, both entries' blocks are present: neither insertion
/// loses the other.
pub proof fn lemma_add_entry_no_lost_update(content: Seq<char>, p1: Seq<char>, p2: Seq<char>)
    ensures
        contains_seq(add_entry_spec(add_entry_spec(content, p1), p2), entry_block_spec(p1)),
        contains_seq(add_entry_spec(add_entry_spec(content, p1), p2), entry_block_spec(p2)),
{
    let c1 = add_entry_spec(content, p1);
    lemma_add_entry_present(content, p1);
    lemma_add_entry_present(c1, p2);
    if !contains_seq(c1, entry_block_spec(p2)) {
        lemma_contains_append(c1, entry_block_spec(p2), entry_block_spec(p1));
    }
}

} // verus!
