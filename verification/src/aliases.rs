//! The co-author aliases file: one `alias:Full Name <email>` declaration per line.
use vstd::prelude::*;
use crate::text::{
    chars_eq, chars_of, concat_chars, find_char, first_index, lemma_first_index_is,
    lacks, lemma_lines_append, lemma_lines_of_one_line, lines, slice_chars, split_lines, string_of,
    strip_cr, trim, trim_chars, views,
};

verus! {

/// The `(alias, co-author)` pair one line of the file declares: the text before
/// the first `':'` and the text after it, both trimmed. Lines without `':'`
/// declare nothing.
pub open spec fn alias_entry(line: Seq<char>) -> Option<(Seq<char>, Seq<char>)> {
    let i = first_index(line, ':');
    if i < line.len() {
        Some((trim(line.take(i as int)), trim(line.skip(i + 1 as int))))
    } else {
        None
    }
}

/// What `alias` stands for in the given lines: the last declaration wins.
pub open spec fn alias_in_lines(ls: Seq<Seq<char>>, alias: Seq<char>) -> Option<Seq<char>>
    decreases ls.len(),
{
    if ls.len() == 0 {
        None
    } else {
        match alias_entry(ls.last()) {
            Some((key, value)) => if key == alias {
                Some(value)
            } else {
                alias_in_lines(ls.drop_last(), alias)
            },
            None => alias_in_lines(ls.drop_last(), alias),
        }
    }
}

/// What `alias` stands for in the aliases file `content`.
pub open spec fn alias_lookup(content: Seq<char>, alias: Seq<char>) -> Option<Seq<char>> {
    alias_in_lines(lines(content), alias)
}

/// The line that records `alias` for `name <email>`.
pub open spec fn alias_line(alias: Seq<char>, name: Seq<char>, email: Seq<char>) -> Seq<char> {
    alias + seq![':'] + name + seq![' ', '<'] + email + seq!['>']
}

/// The co-author text recorded for `name` and `email`.
pub open spec fn co_author_text(name: Seq<char>, email: Seq<char>) -> Seq<char> {
    name + seq![' ', '<'] + email + seq!['>']
}

pub open spec fn opt_view(o: Option<String>) -> Option<Seq<char>> {
    match o {
        Some(s) => Some(s@),
        None => None,
    }
}

fn entry_of(line: &Vec<char>) -> (r: Option<(Vec<char>, Vec<char>)>)
    ensures
        match r {
            Some((k, v)) => alias_entry(line@) == Some((k@, v@)),
            None => alias_entry(line@) is None,
        },
{
    let i = find_char(line, ':');
    if i < line.len() {
        let key = slice_chars(line, 0, i);
        let value = slice_chars(line, i + 1, line.len());
        assert(key@ =~= line@.take(i as int));
        assert(value@ =~= line@.skip(i + 1 as int));
        Some((trim_chars(&key), trim_chars(&value)))
    } else {
        None
    }
}

/// Looks `alias` up in the text of an aliases file: the co-author that the
/// last line declaring exactly `alias` names, if any.
pub fn lookup_alias(content: &str, alias: &str) -> (r: Option<String>)
    ensures
        opt_view(r) == alias_lookup(content@, alias@),
{
    let text = chars_of(content);
    let wanted = chars_of(alias);
    let ls = split_lines(&text);
    let mut found: Option<Vec<char>> = None;
    let mut i: usize = 0;
    while i < ls.len()
        invariant
            i <= ls@.len(),
            views(ls@) == lines(content@),
            wanted@ == alias@,
            match found {
                Some(v) => alias_in_lines(views(ls@).take(i as int), alias@) == Some(v@),
                None => alias_in_lines(views(ls@).take(i as int), alias@) is None,
            },
        decreases ls@.len() - i,
    {
        let ghost prefix = views(ls@).take(i + 1 as int);
        assert(prefix.drop_last() =~= views(ls@).take(i as int));
        assert(prefix.last() == ls@[i as int]@);
        match entry_of(&ls[i]) {
            Some((k, v)) => {
                if chars_eq(&k, &wanted) {
                    found = Some(v);
                }
            },
            None => {},
        }
        i = i + 1;
    }
    assert(views(ls@).take(i as int) =~= views(ls@));
    match found {
        Some(v) => Some(string_of(v.as_slice())),
        None => None,
    }
}

/// The line `alias:name <email>` (with its line ending) that records an alias.
pub fn alias_record(alias: &str, name: &str, email: &str) -> (r: String)
    ensures
        r@ == alias_line(alias@, name@, email@) + seq!['\n'],
{
    let mut v = chars_of(alias);
    v.push(':');
    let n = chars_of(name);
    v = concat_chars(&v, &n);
    v.push(' ');
    v.push('<');
    let e = chars_of(email);
    v = concat_chars(&v, &e);
    v.push('>');
    v.push('\n');
    assert(v@ =~= alias_line(alias@, name@, email@) + seq!['\n']);
    string_of(v.as_slice())
}

/// Number of leading `'@'` characters.
pub open spec fn leading_ats(s: Seq<char>) -> nat
    decreases s.len(),
{
    if s.len() > 0 && s[0] == '@' {
        1 + leading_ats(s.drop_first())
    } else {
        0
    }
}

proof fn lemma_leading_ats_is(s: Seq<char>, i: int)
    requires
        0 <= i <= s.len(),
        forall|k: int| 0 <= k < i ==> #[trigger] s[k] == '@',
        i < s.len() ==> s[i] != '@',
    ensures
        leading_ats(s) == i,
    decreases i,
{
    if i > 0 {
        let t = s.drop_first();
        assert forall|k: int| 0 <= k < i - 1 implies #[trigger] t[k] == '@' by {
            assert(t[k] == s[k + 1]);
        }
        if i - 1 < t.len() {
            assert(t[i - 1] == s[i]);
        }
        lemma_leading_ats_is(t, i - 1);
    }
}

/// The alias a user typed, without its `'@'` marks (`trim_start_matches('@')`).
pub fn alias_name(arg: &str) -> (r: String)
    ensures
        r@ == arg@.skip(leading_ats(arg@) as int),
{
    let v = chars_of(arg);
    let mut i: usize = 0;
    while i < v.len() && v[i] == '@'
        invariant
            i <= v@.len(),
            forall|k: int| 0 <= k < i ==> v@[k] == '@',
        decreases v@.len() - i,
    {
        i = i + 1;
    }
    proof {
        lemma_leading_ats_is(v@, i as int);
    }
    let rest = slice_chars(&v, i, v.len());
    assert(rest@ =~= arg@.skip(i as int));
    string_of(rest.as_slice())
}

proof fn lemma_entry_of_alias_line(alias: Seq<char>, name: Seq<char>, email: Seq<char>)
    requires
        lacks(alias, ':'),
    ensures
        alias_entry(alias_line(alias, name, email)) == Some(
            (trim(alias), trim(co_author_text(name, email))),
        ),
{
    let l = alias_line(alias, name, email);
    assert forall|k: int| 0 <= k < alias.len() implies #[trigger] l[k] != ':' by {
        assert(l[k] == alias[k]);
    }
    assert(l[alias.len() as int] == ':');
    lemma_first_index_is(l, ':', alias.len() as int);
    assert(l.take(alias.len() as int) =~= alias);
    assert(l.skip(alias.len() + 1 as int) =~= co_author_text(name, email));
}

proof fn lemma_lines_after_record(
    content: Seq<char>,
    alias: Seq<char>,
    name: Seq<char>,
    email: Seq<char>,
)
    requires
        content.len() == 0 || content.last() == '\n',
        lacks(alias, '\n'),
        lacks(name, '\n'),
        lacks(email, '\n'),
    ensures
        lines(content + (alias_line(alias, name, email) + seq!['\n'])) == lines(content) + seq![
            alias_line(alias, name, email),
        ],
{
    let l = alias_line(alias, name, email);
    assert forall|k: int| 0 <= k < l.len() implies #[trigger] l[k] != '\n' by {
        if k < alias.len() {
            assert(l[k] == alias[k]);
        } else if k == alias.len() {
        } else if k < alias.len() + 1 + name.len() {
            assert(l[k] == name[k - alias.len() - 1]);
        } else if k < alias.len() + 3 + name.len() {
        } else if k < alias.len() + 3 + name.len() + email.len() {
            assert(l[k] == email[k - alias.len() - 3 - name.len()]);
        }
    }
    lemma_lines_append(content, l + seq!['\n']);
    lemma_lines_of_one_line(l);
    assert(l.last() == '>');
}

/// Law: once `alias` is recorded for `name <email>`, looking `alias` up gives
/// that co-author, whatever the file said of it before.
pub proof fn lemma_recorded_alias_is_found(
    content: Seq<char>,
    alias: Seq<char>,
    name: Seq<char>,
    email: Seq<char>,
)
    requires
        content.len() == 0 || content.last() == '\n',
        trim(alias) == alias,
        lacks(alias, ':'),
        lacks(alias, '\n'),
        lacks(name, '\n'),
        lacks(email, '\n'),
    ensures
        alias_lookup(content + (alias_line(alias, name, email) + seq!['\n']), alias) == Some(
            trim(co_author_text(name, email)),
        ),
{
    lemma_lines_after_record(content, alias, name, email);
    lemma_entry_of_alias_line(alias, name, email);
    let ls = lines(content) + seq![alias_line(alias, name, email)];
    assert(ls.last() == alias_line(alias, name, email));
}

/// Law: recording one alias leaves what every other alias stands for unchanged.
pub proof fn lemma_recording_keeps_other_aliases(
    content: Seq<char>,
    alias: Seq<char>,
    name: Seq<char>,
    email: Seq<char>,
    other: Seq<char>,
)
    requires
        content.len() == 0 || content.last() == '\n',
        trim(alias) == alias,
        lacks(alias, ':'),
        lacks(alias, '\n'),
        lacks(name, '\n'),
        lacks(email, '\n'),
        other != alias,
    ensures
        alias_lookup(content + (alias_line(alias, name, email) + seq!['\n']), other)
            == alias_lookup(content, other),
{
    lemma_lines_after_record(content, alias, name, email);
    lemma_entry_of_alias_line(alias, name, email);
    let ls = lines(content) + seq![alias_line(alias, name, email)];
    assert(ls.last() == alias_line(alias, name, email));
    assert(ls.drop_last() =~= lines(content));
}

} // verus!
