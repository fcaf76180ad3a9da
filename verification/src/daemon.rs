//! The record of running stash-alarm daemons: one `pid:directory` line per
//! daemon.
use vstd::prelude::*;
use vstd::string::StringExecFns;
use crate::numbers::{decimal, decimal_u64, lemma_decimal_value, parse_i32, parsed_integer,
    is_digit, all_digits};
use crate::text::{
    chars_eq, chars_of, find_char, first_index, lemma_first_index_is, lemma_lines_append,
    lemma_lines_of_one_line, lines, slice_chars, split_lines, string_of, strip_cr, views,
    terminated, lacks, lemma_lines_lack, lemma_lines_of_terminated, lemma_first_index_bound, lemma_terminated_lines,
};

verus! {

/// The directory a record line names: what follows its first `':'`.
pub open spec fn line_dir(line: Seq<char>) -> Option<Seq<char>> {
    let i = first_index(line, ':');
    if i < line.len() {
        Some(line.skip(i + 1 as int))
    } else {
        None
    }
}

/// The daemon a record line names for `dir`: the text before the first `':'`
/// read as an `i32`, when the line names `dir`.
pub open spec fn line_pid(line: Seq<char>, dir: Seq<char>) -> Option<i32> {
    let i = first_index(line, ':');
    if i < line.len() && line.skip(i + 1 as int) == dir {
        match parsed_integer(line.take(i as int), true, i32::MIN as int, i32::MAX as int) {
            Some(p) => Some(p as i32),
            None => None,
        }
    } else {
        None
    }
}

/// The daemons the lines record for `dir`, in order.
pub open spec fn pids_in(ls: Seq<Seq<char>>, dir: Seq<char>) -> Seq<i32>
    decreases ls.len(),
{
    if ls.len() == 0 {
        seq![]
    } else {
        pids_in(ls.drop_last(), dir) + match line_pid(ls.last(), dir) {
            Some(p) => seq![p],
            None => seq![],
        }
    }
}

/// The daemons a record recorded for `dir`.
pub open spec fn recorded_pids(content: Seq<char>, dir: Seq<char>) -> Seq<i32> {
    pids_in(lines(content), dir)
}

/// The lines that do not name `dir`.
pub open spec fn lines_without(ls: Seq<Seq<char>>, dir: Seq<char>) -> Seq<Seq<char>>
    decreases ls.len(),
{
    if ls.len() == 0 {
        seq![]
    } else {
        lines_without(ls.drop_last(), dir) + if line_dir(ls.last()) == Some(dir) {
            Seq::<Seq<char>>::empty()
        } else {
            seq![ls.last()]
        }
    }
}

/// The line recording daemon `pid` for `dir`.
pub open spec fn daemon_line(pid: u32, dir: Seq<char>) -> Seq<char> {
    decimal(pid as nat) + seq![':'] + dir
}

/// The line recording daemon `pid` for `dir`, with its line ending.
pub fn daemon_entry(pid: u32, dir: &str) -> (r: String)
    ensures
        r@ == daemon_line(pid, dir@) + seq!['\n'],
{
    proof {
        reveal_strlit(":");
        reveal_strlit("\n");
    }
    let mut s = decimal_u64(pid as u64);
    s.append(":");
    s.append(dir);
    s.append("\n");
    s
}

/// The record after daemon `pid` registers for `dir`.
pub fn register_daemon(content: &str, pid: u32, dir: &str) -> (r: String)
    ensures
        r@ == content@ + daemon_line(pid, dir@) + seq!['\n'],
{
    let mut s = String::from_str(content);
    let e = daemon_entry(pid, dir);
    s.append(e.as_str());
    assert(s@ =~= content@ + daemon_line(pid, dir@) + seq!['\n']);
    s
}

/// The record after the daemon of `dir` unregisters: every line naming
/// `dir` is gone, the others stay, each ended by `'\n'`.
pub fn unregister_daemon(content: &str, dir: &str) -> (r: String)
    ensures
        r@ == terminated(lines_without(lines(content@), dir@)),
{
    let text = chars_of(content);
    let d = chars_of(dir);
    let ls = split_lines(&text);
    let mut out: Vec<char> = Vec::new();
    let mut i: usize = 0;
    while i < ls.len()
        invariant
            i <= ls@.len(),
            views(ls@) == lines(content@),
            d@ == dir@,
            out@ == terminated(lines_without(views(ls@).take(i as int), dir@)),
        decreases ls@.len() - i,
    {
        let ghost pre = views(ls@).take(i + 1 as int);
        assert(pre.drop_last() =~= views(ls@).take(i as int));
        assert(pre.last() == ls@[i as int]@);
        let line = &ls[i];
        let c = find_char(line, ':');
        let names_dir = if c < line.len() {
            let rest = slice_chars(line, c + 1, line.len());
            assert(rest@ =~= line@.skip(c + 1 as int));
            chars_eq(&rest, &d)
        } else {
            false
        };
        if !names_dir {
            let ghost before = out@;
            let mut k: usize = 0;
            while k < line.len()
                invariant
                    k <= line@.len(),
                    out@ == before + line@.take(k as int),
                decreases line@.len() - k,
            {
                out.push(line[k]);
                k = k + 1;
                assert(out@ =~= before + line@.take(k as int));
            }
            out.push('\n');
            assert(line@.take(k as int) =~= line@);
            assert(lines_without(pre, dir@) =~= lines_without(pre.drop_last(), dir@) + seq![
                pre.last(),
            ]);
            let ghost kept = lines_without(pre, dir@);
            assert(kept.drop_last() =~= lines_without(pre.drop_last(), dir@));
            assert(kept.last() == line@);
            assert(terminated(kept) == terminated(kept.drop_last()) + kept.last() + seq!['\n']);
            assert(terminated(kept) =~= before + line@ + seq!['\n']);
        } else {
            assert(lines_without(pre, dir@) =~= lines_without(pre.drop_last(), dir@));
        }
        i = i + 1;
    }
    assert(views(ls@).take(i as int) =~= views(ls@));
    string_of(out.as_slice())
}

/// The daemons the record lists for `dir`, in order, as `i32` process ids.
pub fn daemon_pids(content: &str, dir: &str) -> (r: Vec<i32>)
    ensures
        r@ == recorded_pids(content@, dir@),
{
    let text = chars_of(content);
    let d = chars_of(dir);
    let ls = split_lines(&text);
    let mut out: Vec<i32> = Vec::new();
    let mut i: usize = 0;
    while i < ls.len()
        invariant
            i <= ls@.len(),
            views(ls@) == lines(content@),
            d@ == dir@,
            out@ == pids_in(views(ls@).take(i as int), dir@),
        decreases ls@.len() - i,
    {
        let ghost pre = views(ls@).take(i + 1 as int);
        assert(pre.drop_last() =~= views(ls@).take(i as int));
        assert(pre.last() == ls@[i as int]@);
        let line = &ls[i];
        let c = find_char(line, ':');
        let ghost before = out@;
        if c < line.len() {
            let rest = slice_chars(line, c + 1, line.len());
            assert(rest@ =~= line@.skip(c + 1 as int));
            if chars_eq(&rest, &d) {
                let head = slice_chars(line, 0, c);
                assert(head@ =~= line@.take(c as int));
                let head_text = string_of(head.as_slice());
                if let Some(p) = parse_i32(head_text.as_str()) {
                    out.push(p);
                }
            }
        }
        assert(out@ =~= pids_in(pre, dir@));
        i = i + 1;
    }
    assert(views(ls@).take(i as int) =~= views(ls@));
    out
}

proof fn lemma_decimal_reads_as_i32(n: u32)
    requires
        n <= i32::MAX,
    ensures
        parsed_integer(decimal(n as nat), true, i32::MIN as int, i32::MAX as int) == Some(n as int),
        lacks(decimal(n as nat), ':'),
{
    lemma_decimal_value(n as nat);
    let s = decimal(n as nat);
    assert(is_digit(s[0]));
    assert forall|k: int| 0 <= k < s.len() implies #[trigger] s[k] != ':' by {
        assert(is_digit(s[k]));
    }
}

proof fn lemma_daemon_line_pid(pid: u32, dir: Seq<char>)
    requires
        pid <= i32::MAX,
    ensures
        line_pid(daemon_line(pid, dir), dir) == Some(pid as i32),
        line_dir(daemon_line(pid, dir)) == Some(dir),
{
    let d = decimal(pid as nat);
    let l = daemon_line(pid, dir);
    lemma_decimal_reads_as_i32(pid);
    assert forall|k: int| 0 <= k < d.len() implies #[trigger] l[k] != ':' by {
        assert(l[k] == d[k]);
    }
    assert(l[d.len() as int] == ':');
    lemma_first_index_is(l, ':', d.len() as int);
    assert(l.take(d.len() as int) =~= d);
    assert(l.skip(d.len() + 1 as int) =~= dir);
}

/// Law: after daemon `pid` registers for `dir`, the record lists it for `dir`,
/// after the daemons it listed before.
pub proof fn lemma_registered_daemon_is_listed(content: Seq<char>, pid: u32, dir: Seq<char>)
    requires
        content.len() == 0 || content.last() == '\n',
        lacks(dir, '\n'),
        !(dir.len() > 0 && dir.last() == '\r'),
        pid <= i32::MAX,
    ensures
        recorded_pids(content + daemon_line(pid, dir) + seq!['\n'], dir) == recorded_pids(
            content,
            dir,
        ) + seq![pid as i32],
{
    lemma_lines_after_entry(content, pid, dir);
    let ls = lines(content) + seq![daemon_line(pid, dir)];
    assert(ls.drop_last() =~= lines(content));
    assert(ls.last() == daemon_line(pid, dir));
    lemma_daemon_line_pid(pid, dir);
}

/// The entry for `pid` and `dir` reads back as one more line, and that line
/// names `dir`.
proof fn lemma_lines_after_entry(content: Seq<char>, pid: u32, dir: Seq<char>)
    requires
        content.len() == 0 || content.last() == '\n',
        lacks(dir, '\n'),
        !(dir.len() > 0 && dir.last() == '\r'),
    ensures
        lines(content + daemon_line(pid, dir) + seq!['\n']) == lines(content) + seq![daemon_line(pid, dir)],
        line_dir(daemon_line(pid, dir)) == Some(dir),
{
    let l = daemon_line(pid, dir);
    let d = decimal(pid as nat);
    lemma_decimal_value(pid as nat);
    assert forall|k: int| 0 <= k < l.len() implies #[trigger] l[k] != '\n' by {
        if k < d.len() {
            assert(l[k] == d[k]);
            assert(is_digit(d[k]));
        } else if k > d.len() {
            assert(l[k] == dir[k - d.len() - 1]);
        }
    }
    assert(l.last() != '\r') by {
        if dir.len() > 0 {
            assert(l.last() == dir.last());
        } else {
            assert(l.last() == ':');
        }
    }
    assert(content + l + seq!['\n'] =~= content + (l + seq!['\n']));
    lemma_lines_append(content, l + seq!['\n']);
    lemma_lines_of_one_line(l);
    assert(l.last() != '\r');
    assert(strip_cr(l) == l);
    assert forall|k: int| 0 <= k < d.len() implies #[trigger] l[k] != ':' by {
        assert(l[k] == d[k]);
        assert(is_digit(d[k]));
    }
    assert(l[d.len() as int] == ':');
    lemma_first_index_is(l, ':', d.len() as int);
    assert(l.skip(d.len() + 1 as int) =~= dir);
}

/// Lines none of which names `dir` are all kept.
proof fn lemma_lines_without_none(ls: Seq<Seq<char>>, dir: Seq<char>)
    requires
        forall|i: int| 0 <= i < ls.len() ==> line_dir(#[trigger] ls[i]) != Some(dir),
    ensures
        lines_without(ls, dir) == ls,
    decreases ls.len(),
{
    if ls.len() > 0 {
        let init = ls.drop_last();
        assert forall|i: int| 0 <= i < init.len() implies line_dir(#[trigger] init[i]) != Some(dir) by {
            assert(init[i] == ls[i]);
        }
        lemma_lines_without_none(init, dir);
        assert(line_dir(ls[ls.len() - 1]) != Some(dir));
        assert(lines_without(ls, dir) =~= ls);
    }
}

/// Law: when a record names no daemon of `dir`, registering daemon `pid`
/// for `dir` and then unregistering `dir` gives the record back as it was.
pub proof fn lemma_unregister_undoes_register(content: Seq<char>, pid: u32, dir: Seq<char>)
    requires
        content.len() == 0 || content.last() == '\n',
        lacks(content, '\r'),
        lacks(dir, '\n'),
        !(dir.len() > 0 && dir.last() == '\r'),
        forall|i: int| 0 <= i < lines(content).len() ==> line_dir(#[trigger] lines(content)[i]) != Some(dir),
    ensures
        terminated(lines_without(lines(content + daemon_line(pid, dir) + seq!['\n']), dir)) == content,
{
    lemma_lines_after_entry(content, pid, dir);
    let ls = lines(content);
    let all = ls + seq![daemon_line(pid, dir)];
    assert(all.drop_last() =~= ls);
    assert(all.last() == daemon_line(pid, dir));
    lemma_lines_without_none(ls, dir);
    assert(lines_without(all, dir) == lines_without(ls, dir));
    lemma_terminated_lines(content);
}

proof fn lemma_pids_without(ls: Seq<Seq<char>>, dir: Seq<char>, other: Seq<char>)
    ensures
        pids_in(lines_without(ls, dir), dir) == Seq::<i32>::empty(),
        other != dir ==> pids_in(lines_without(ls, dir), other) == pids_in(ls, other),
    decreases ls.len(),
{
    if ls.len() > 0 {
        lemma_pids_without(ls.drop_last(), dir, other);
        let kept = lines_without(ls, dir);
        let prev = lines_without(ls.drop_last(), dir);
        if line_dir(ls.last()) == Some(dir) {
            assert(kept =~= prev);
            if other != dir {
                assert(line_pid(ls.last(), other) is None);
                assert(pids_in(ls, other) =~= pids_in(ls.drop_last(), other));
            }
        } else {
            assert(kept =~= prev + seq![ls.last()]);
            assert(kept.drop_last() =~= prev);
            assert(kept.last() == ls.last());
            assert(line_pid(ls.last(), dir) is None);
            assert(pids_in(kept, dir) =~= pids_in(prev, dir));
            if other != dir {
                assert(pids_in(kept, other) =~= pids_in(ls, other));
            }
        }
    }
}

proof fn lemma_lines_without_lack(ls: Seq<Seq<char>>, dir: Seq<char>)
    requires
        forall|i: int| 0 <= i < ls.len() ==> lacks(#[trigger] ls[i], '\n') && lacks(ls[i], '\r'),
    ensures
        forall|i: int|
            0 <= i < lines_without(ls, dir).len() ==> lacks(#[trigger] lines_without(ls, dir)[i], '\n')
                && lacks(lines_without(ls, dir)[i], '\r'),
    decreases ls.len(),
{
    if ls.len() > 0 {
        let init = ls.drop_last();
        assert forall|i: int| 0 <= i < init.len() implies lacks(#[trigger] init[i], '\n') && lacks(
            init[i],
            '\r',
        ) by {
            assert(init[i] == ls[i]);
        }
        lemma_lines_without_lack(init, dir);
        let kept = lines_without(ls, dir);
        let prev = lines_without(init, dir);
        assert(lacks(ls.last(), '\n') && lacks(ls.last(), '\r')) by {
            assert(ls.last() == ls[ls.len() - 1]);
        }
        assert forall|i: int| 0 <= i < kept.len() implies lacks(#[trigger] kept[i], '\n') && lacks(
            kept[i],
            '\r',
        ) by {
            if i < prev.len() {
                assert(kept[i] == prev[i]);
            } else {
                assert(kept[i] == ls.last());
            }
        }
    }
}

proof fn lemma_unregistered_lines(content: Seq<char>, dir: Seq<char>)
    requires
        lacks(content, '\r'),
    ensures
        lines(terminated(lines_without(lines(content), dir))) == lines_without(lines(content), dir),
{
    lemma_lines_lack(content);
    let ls = lines(content);
    assert forall|i: int| 0 <= i < ls.len() implies lacks(#[trigger] ls[i], '\n') && lacks(
        ls[i],
        '\r',
    ) by {}
    lemma_lines_without_lack(ls, dir);
    lemma_lines_of_terminated(lines_without(ls, dir));
}

/// Law: once the daemon of `dir` unregisters, the record lists no daemon for
/// `dir`. (A line holding `'\r'` can change meaning when rewritten, so the
/// record is taken to hold none.)
pub proof fn lemma_unregistered_dir_has_no_daemon(content: Seq<char>, dir: Seq<char>)
    requires
        lacks(content, '\r'),
    ensures
        recorded_pids(terminated(lines_without(lines(content), dir)), dir) == Seq::<i32>::empty(),
{
    lemma_unregistered_lines(content, dir);
    lemma_pids_without(lines(content), dir, dir);
}

/// Law: unregistering one directory leaves the daemons of every other
/// directory listed as before.
pub proof fn lemma_unregister_keeps_other_dirs(content: Seq<char>, dir: Seq<char>, other: Seq<char>)
    requires
        lacks(content, '\r'),
        other != dir,
    ensures
        recorded_pids(terminated(lines_without(lines(content), dir)), other) == recorded_pids(
            content,
            other,
        ),
{
    lemma_unregistered_lines(content, dir);
    lemma_pids_without(lines(content), dir, other);
}

} // verus!
