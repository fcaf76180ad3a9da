//! `g c`: what the command line says about a commit, and the co-author
//! trailer that ends its message.
use vstd::prelude::*;
use vstd::string::StringExecFns;
use std::path::PathBuf;
use crate::error::{solo_text, GError};
use crate::text::{
    chars_of, lacks, lemma_lines_final_newline, lemma_lines_of_terminated,
    lemma_terminated_prepend, lines, slice_chars, string_of, terminated,
};

verus! {

/// A repository path, carried through unchanged.
#[verifier::external_type_specification]
#[verifier::external_body]
pub struct ExPathBuf(PathBuf);

/// The views of a sequence of strings.
pub open spec fn texts(v: Seq<String>) -> Seq<Seq<char>> {
    v.map_values(|s: String| s@)
}

/// `s` starts with `'@'`.
pub open spec fn marks_alias(s: Seq<char>) -> bool {
    s.len() > 0 && s[0] == '@'
}

/// Where co-author aliases are looked up and recorded.
pub trait CoAuthorAliases {
    /// The co-author (`Full Name <email>`) that `alias` stands for, if any.
    fn format_alias(&self, alias: &str) -> Option<String>;

    /// Records that `alias` stands for `name <email>`.
    fn add_alias(&self, alias: &str, name: &str, email: &str) -> Result<(), GError>;
}

/// What ends a commit message: nothing, a solo-work note, or co-author trailers.
pub trait MessagePostfix {
    /// The text appended to the commit message.
    fn format_postfix<A: CoAuthorAliases>(&self, aliases: &A) -> Result<String, GError>;

    /// Whether the user said who worked on the commit (co-authors or `SOLO`).
    fn is_explicit(&self) -> bool;
}

/// Co-authors named by `@alias` arguments.
pub struct CoAuthors(Vec<String>);

/// `SOLO`: the user says the work is their own.
pub struct ExplicitSolo;

/// No co-author arguments at all.
pub struct ImplicitSolo;

impl CoAuthors {
    #[verifier::type_invariant]
    spec fn well_formed(self) -> bool {
        forall|i: int| 0 <= i < self.0@.len() ==> marks_alias(#[trigger] self.0@[i]@)
    }

    /// The `@alias` arguments, in order.
    pub closed spec fn arguments(self) -> Seq<Seq<char>> {
        texts(self.0@)
    }
}

/// One trailer line.
pub open spec fn trailer(full: Seq<char>) -> Seq<char> {
    "Co-authored-by: "@ + full
}

/// Lines joined by `'\n'`.
pub open spec fn joined(ls: Seq<Seq<char>>) -> Seq<char>
    decreases ls.len(),
{
    if ls.len() == 0 {
        seq![]
    } else if ls.len() == 1 {
        ls[0]
    } else {
        joined(ls.drop_last()) + "\n"@ + ls.last()
    }
}

/// The trailer block for co-authors written out in full.
pub open spec fn co_author_block(fulls: Seq<Seq<char>>) -> Seq<char> {
    "\n\n"@ + joined(fulls.map_values(|f: Seq<char>| trailer(f)))
}

/// Joined lines with a final `'\n'` are the lines, each ended by `'\n'`.
proof fn lemma_joined_terminated(ls: Seq<Seq<char>>)
    requires
        ls.len() > 0,
    ensures
        joined(ls) + "\n"@ == terminated(ls),
    decreases ls.len(),
{
    reveal_strlit("\n");
    if ls.len() == 1 {
        assert(ls.drop_last() =~= Seq::<Seq<char>>::empty());
        assert(terminated(Seq::<Seq<char>>::empty()) =~= Seq::<char>::empty());
        assert(terminated(ls) =~= ls[0] + seq!['\n']);
        assert(joined(ls) + "\n"@ =~= ls[0] + seq!['\n']);
    } else {
        lemma_joined_terminated(ls.drop_last());
        assert(joined(ls) + "\n"@ =~= joined(ls.drop_last()) + "\n"@ + ls.last() + seq!['\n']);
    }
}

/// Law: the trailer block is a blank line and then the trailers, one per
/// line, in the order of the co-authors: read back line by line it is two
/// empty lines followed by exactly one `Co-authored-by: ` line per
/// co-author (whose text holds no line break).
pub proof fn lemma_trailer_block_lines(fulls: Seq<Seq<char>>)
    requires
        forall|i: int| 0 <= i < fulls.len() ==> lacks(#[trigger] fulls[i], '\n') && lacks(fulls[i], '\r'),
    ensures
        lines(co_author_block(fulls)) == seq![Seq::<char>::empty(), Seq::<char>::empty()]
            + fulls.map_values(|f: Seq<char>| trailer(f)),
{
    reveal_strlit("\n");
    reveal_strlit("\n\n");
    reveal_strlit("Co-authored-by: ");
    let ts = fulls.map_values(|f: Seq<char>| trailer(f));
    let e = Seq::<char>::empty();
    let all = seq![e, e] + ts;
    assert forall|i: int| 0 <= i < all.len() implies lacks(#[trigger] all[i], '\n') && lacks(
        all[i],
        '\r',
    ) by {
        if i >= 2 {
            let f = fulls[i - 2];
            assert(all[i] == trailer(f));
            assert forall|k: int| 0 <= k < trailer(f).len() implies #[trigger] trailer(f)[k] != '\n'
                && trailer(f)[k] != '\r' by {
                if k >= 16 {
                    assert(trailer(f)[k] == f[k - 16]);
                }
            }
        }
    }
    lemma_lines_of_terminated(all);
    lemma_terminated_prepend(e, seq![e] + ts);
    assert(seq![e] + (seq![e] + ts) =~= all);
    lemma_terminated_prepend(e, ts);
    if ts.len() == 0 {
        assert(terminated(ts) =~= Seq::<char>::empty());
        assert(joined(ts) =~= Seq::<char>::empty());
        assert(co_author_block(fulls) =~= terminated(all));
    } else {
        lemma_joined_terminated(ts);
        let block = co_author_block(fulls);
        assert(block + seq!['\n'] =~= terminated(all));
        let t = ts.last();
        assert(t == trailer(fulls[fulls.len() - 1]));
        assert(joined(ts).len() > 0 && joined(ts).last() == t.last()) by {
            assert(joined(ts) == if ts.len() == 1 { ts[0] } else { joined(ts.drop_last()) + "\n"@ + t });
            assert(t.len() > 0);
        }
        assert(block.last() == t.last());
        assert(t.last() != '\n' && t.last() != '\r') by {
            assert(t == all[all.len() - 1]);
            assert(lacks(t, '\n') && lacks(t, '\r'));
            assert(t[t.len() - 1] == t.last());
        }
        lemma_lines_final_newline(block);
    }
}

/// The trailer block for co-authors written out in full (`Name <email>`).
pub fn co_author_trailers(fulls: &Vec<String>) -> (r: String)
    ensures
        r@ == co_author_block(texts(fulls@)),
{
    let ghost ts = texts(fulls@).map_values(|f: Seq<char>| trailer(f));
    let mut body = String::new();
    let mut i: usize = 0;
    while i < fulls.len()
        invariant
            i <= fulls@.len(),
            ts == texts(fulls@).map_values(|f: Seq<char>| trailer(f)),
            body@ == joined(ts.take(i as int)),
        decreases fulls@.len() - i,
    {
        if i > 0 {
            body.append("\n");
        }
        body.append("Co-authored-by: ");
        body.append(fulls[i].as_str());
        proof {
            let t = ts.take(i + 1 as int);
            assert(t.drop_last() =~= ts.take(i as int));
            assert(t.last() == trailer(fulls@[i as int]@));
            if i == 0 {
                assert(joined(ts.take(0)) =~= Seq::<char>::empty());
            }
        }
        i = i + 1;
    }
    assert(ts.take(i as int) =~= ts);
    let mut r = String::from_str("\n\n");
    r.append(body.as_str());
    r
}

/// The alias an `@alias` argument names.
fn alias_of(arg: &String) -> (r: String)
    requires
        marks_alias(arg@),
    ensures
        r@ == arg@.drop_first(),
{
    let v = chars_of(arg.as_str());
    let rest = slice_chars(&v, 1, v.len());
    assert(rest@ =~= arg@.drop_first());
    string_of(rest.as_slice())
}

/// `aliases` can answer `full` when asked for `alias`.
pub open spec fn answers<A: CoAuthorAliases>(aliases: &A, alias: Seq<char>, full: Option<String>) -> bool {
    exists|key: &str| key@ == alias && #[trigger] call_ensures(A::format_alias, (aliases, key), full)
}

/// The trailer block of `fulls`, each the answer of `aliases` to the alias
/// of the argument at the same place.
pub open spec fn answered_block<A: CoAuthorAliases>(
    aliases: &A,
    args: Seq<Seq<char>>,
    fulls: Seq<String>,
) -> bool {
    &&& fulls.len() == args.len()
    &&& forall|j: int|
        0 <= j < args.len() ==> answers(aliases, #[trigger] args[j].drop_first(), Some(fulls[j]))
}

/// `postfix` is the trailer block of answers of `aliases` to the aliases
/// of `args`.
pub open spec fn answered_postfix<A: CoAuthorAliases>(aliases: &A, args: Seq<Seq<char>>, postfix: Seq<char>) -> bool {
    exists|fulls: Seq<String>|
        answered_block(aliases, args, fulls) && postfix == #[trigger] co_author_block(texts(fulls))
}

/// `alias` is that of the first argument of `args` that `aliases` did not
/// know: those before it were answered (with `fulls`), it was not.
pub open spec fn first_unknown<A: CoAuthorAliases>(aliases: &A, args: Seq<Seq<char>>, alias: Seq<char>) -> bool {
    exists|i: int, fulls: Seq<String>|
        0 <= i < args.len() && alias == args[i].drop_first() && answers(aliases, args[i].drop_first(), None)
            && #[trigger] answered_block(aliases, args.take(i), fulls)
}

impl MessagePostfix for CoAuthors {
    /// Looks every alias up, in order; the first unknown one is the error.
    fn format_postfix<A: CoAuthorAliases>(&self, aliases: &A) -> (r: Result<String, GError>)
        ensures
            r matches Ok(s) ==> answered_postfix(aliases, self.arguments(), s@),
            r matches Err(e) ==> e matches GError::UnknownAlias(a) && first_unknown(
                aliases,
                self.arguments(),
                a@,
            ),
    {
        proof {
            use_type_invariant(self);
        }
        let ghost args = self.arguments();
        let mut fulls: Vec<String> = Vec::new();
        let mut i: usize = 0;
        while i < self.0.len()
            invariant
                i <= self.0@.len(),
                fulls@.len() == i,
                args == self.arguments(),
                args == texts(self.0@),
                forall|j: int| 0 <= j < self.0@.len() ==> marks_alias(#[trigger] self.0@[j]@),
                forall|j: int| 0 <= j < i ==> answers(aliases, #[trigger] args[j].drop_first(), Some(fulls@[j])),
            decreases self.0@.len() - i,
        {
            let alias = alias_of(&self.0[i]);
            let key = alias.as_str();
            let found = aliases.format_alias(key);
            assert(call_ensures(A::format_alias, (aliases, key), found));
            assert(args[i as int] == self.0@[i as int]@);
            assert(answers(aliases, args[i as int].drop_first(), found));
            match found {
                Some(full) => {
                    let ghost before = fulls@;
                    fulls.push(full);
                    assert forall|j: int| 0 <= j < i + 1 implies answers(
                        aliases,
                        #[trigger] args[j].drop_first(),
                        Some(fulls@[j]),
                    ) by {
                        if j < i {
                            assert(fulls@[j] == before[j]);
                        }
                    }
                },
                None => {
                    assert(alias@ == args[i as int].drop_first());
                    assert(answered_block(aliases, args.take(i as int), fulls@)) by {
                        assert forall|j: int| 0 <= j < i implies answers(
                            aliases,
                            #[trigger] args.take(i as int)[j].drop_first(),
                            Some(fulls@[j]),
                        ) by {
                            assert(args.take(i as int)[j] == args[j]);
                        }
                    }
                    assert(first_unknown(aliases, args, alias@));
                    return Err(GError::UnknownAlias(alias));
                },
            }
            i = i + 1;
        }
        let block = co_author_trailers(&fulls);
        assert(answered_block(aliases, args, fulls@));
        assert(answered_postfix(aliases, args, block@));
        Ok(block)
    }

    fn is_explicit(&self) -> (r: bool)
        ensures
            r,
    {
        true
    }
}

impl MessagePostfix for ExplicitSolo {
    fn format_postfix<A: CoAuthorAliases>(&self, aliases: &A) -> (r: Result<String, GError>)
        ensures
            r matches Ok(s) && s@ == "\n\n(Solo-work)"@,
    {
        Ok(String::from_str("\n\n(Solo-work)"))
    }

    fn is_explicit(&self) -> (r: bool)
        ensures
            r,
    {
        true
    }
}

impl MessagePostfix for ImplicitSolo {
    fn format_postfix<A: CoAuthorAliases>(&self, aliases: &A) -> (r: Result<String, GError>)
        ensures
            r matches Ok(s) && s@ == Seq::<char>::empty(),
    {
        Ok(String::new())
    }

    fn is_explicit(&self) -> (r: bool)
        ensures
            !r,
    {
        false
    }
}

/// Which of the three postfixes a commit gets.
pub enum CoAuthorChoice {
    Named(CoAuthors),
    Solo(ExplicitSolo),
    Unstated(ImplicitSolo),
}

impl MessagePostfix for CoAuthorChoice {
    fn format_postfix<A: CoAuthorAliases>(&self, aliases: &A) -> (r: Result<String, GError>)
        ensures
            self matches CoAuthorChoice::Solo(_) ==> (r matches Ok(s) && s@ == "\n\n(Solo-work)"@),
            self matches CoAuthorChoice::Unstated(_) ==> (r matches Ok(s) && s@ == Seq::<char>::empty()),
            self matches CoAuthorChoice::Named(c) ==> {
                &&& r matches Ok(s) ==> answered_postfix(aliases, c.arguments(), s@)
                &&& r matches Err(e) ==> e matches GError::UnknownAlias(a) && first_unknown(
                    aliases,
                    c.arguments(),
                    a@,
                )
            },
    {
        match self {
            CoAuthorChoice::Named(c) => c.format_postfix(aliases),
            CoAuthorChoice::Solo(s) => s.format_postfix(aliases),
            CoAuthorChoice::Unstated(u) => u.format_postfix(aliases),
        }
    }

    fn is_explicit(&self) -> (r: bool)
        ensures
            r == !(self is Unstated),
    {
        match self {
            CoAuthorChoice::Named(c) => c.is_explicit(),
            CoAuthorChoice::Solo(s) => s.is_explicit(),
            CoAuthorChoice::Unstated(u) => u.is_explicit(),
        }
    }
}

/// What `g c` is asked to do.
pub enum CommitAction {
    Commit { message: String, co_authors: CoAuthorChoice },
    Resolve,
    Abort,
}

/// A `g c` request: the repository and the action.
pub struct CommitInput {
    pub repo: PathBuf,
    pub action: CommitAction,
}

/// `r` is how the co-author arguments `args` read: `SOLO` alone is solo
/// work, `SOLO` with anything else is refused, `@alias`es only are named
/// co-authors, anything else not starting with `@` is refused, and no
/// arguments leave it unstated.
pub open spec fn reads_co_authors(args: Seq<Seq<char>>, r: Result<CoAuthorChoice, GError>) -> bool {
    let has_solo = args.contains(solo_text());
    &&& has_solo && args.len() == 1 ==> (r matches Ok(CoAuthorChoice::Solo(_)))
    &&& has_solo && args.len() != 1 ==> (r matches Err(GError::SoloCombined))
    &&& !has_solo && args.len() > 0 && (exists|i: int|
        0 <= i < args.len() && !marks_alias(#[trigger] args[i])) ==> (r matches Err(
        GError::InvalidCoAuthor,
    ))
    &&& !has_solo && args.len() > 0 && (forall|i: int|
        0 <= i < args.len() ==> marks_alias(#[trigger] args[i])) ==> (r matches Ok(
        CoAuthorChoice::Named(c),
    ) && c.arguments() == args)
    &&& args.len() == 0 ==> (r matches Ok(CoAuthorChoice::Unstated(_)))
}

/// Reads the co-author arguments: `SOLO` alone, `@alias`es, or nothing.
pub fn parse_co_authors(co_authors: Vec<String>) -> (r: Result<CoAuthorChoice, GError>)
    ensures
        reads_co_authors(texts(co_authors@), r),
{
    let ghost args = texts(co_authors@);
    let solo = String::from_str("SOLO");
    proof {
        reveal_strlit("SOLO");
        assert(solo@ =~= solo_text());
    }
    let mut has_solo = false;
    let mut i: usize = 0;
    while i < co_authors.len()
        invariant
            i <= co_authors@.len(),
            args == texts(co_authors@),
            solo@ == solo_text(),
            has_solo == (exists|j: int| 0 <= j < i && #[trigger] args[j] == solo_text()),
        decreases co_authors@.len() - i,
    {
        assert(args[i as int] == co_authors@[i as int]@);
        if co_authors[i] == solo {
            has_solo = true;
        }
        i = i + 1;
    }
    assert(has_solo == args.contains(solo_text())) by {
        if args.contains(solo_text()) {
            let j = choose|j: int| 0 <= j < args.len() && args[j] == solo_text();
            assert(args[j] == solo_text());
        }
    }
    if has_solo && co_authors.len() == 1 {
        return Ok(CoAuthorChoice::Solo(ExplicitSolo));
    }
    if has_solo {
        return Err(GError::SoloCombined);
    }
    if co_authors.len() > 0 {
        let mut k: usize = 0;
        while k < co_authors.len()
            invariant
                k <= co_authors@.len(),
                args == texts(co_authors@),
                !args.contains(solo_text()),
                forall|j: int| 0 <= j < k ==> marks_alias(#[trigger] args[j]),
            decreases co_authors@.len() - k,
        {
            let cs = chars_of(co_authors[k].as_str());
            assert(args[k as int] == cs@);
            if cs.len() == 0 || cs[0] != '@' {
                assert(!marks_alias(args[k as int]));
                return Err(GError::InvalidCoAuthor);
            }
            k = k + 1;
        }
        assert forall|j: int| 0 <= j < co_authors@.len() implies marks_alias(
            #[trigger] co_authors@[j]@,
        ) by {
            assert(args[j] == co_authors@[j]@);
        }
        let named = CoAuthors(co_authors);
        assert(named.arguments() == args);
        return Ok(CoAuthorChoice::Named(named));
    }
    Ok(CoAuthorChoice::Unstated(ImplicitSolo))
}

impl CommitInput {
    /// Builds the request from the command line: `--abort` wins over
    /// `--resolve`, which wins over committing.
    pub fn from_cli(
        repo: PathBuf,
        message: Option<String>,
        co_authors: Vec<String>,
        resolve: bool,
        abort: bool,
    ) -> (r: Result<Self, GError>)
        requires
            !abort && !resolve ==> message is Some,
        ensures
            abort ==> (r matches Ok(input) && input.action is Abort && input.repo == repo),
            !abort && resolve ==> (r matches Ok(input) && input.action is Resolve && input.repo
                == repo),
            !abort && !resolve ==> match r {
                Ok(input) => input.repo == repo && (input.action matches CommitAction::Commit {
                    message: m,
                    co_authors: c,
                } && m@ == message->Some_0@ && reads_co_authors(texts(co_authors@), Ok(c))),
                Err(e) => reads_co_authors(texts(co_authors@), Err(e)),
            },
    {
        let action = if abort {
            CommitAction::Abort
        } else if resolve {
            CommitAction::Resolve
        } else {
            let message = match message {
                Some(m) => m,
                None => {
                    assert(false);
                    String::new()
                },
            };
            let parsed = parse_co_authors(co_authors);
            match parsed {
                Ok(c) => CommitAction::Commit { message, co_authors: c },
                Err(e) => {
                    return Err(e);
                },
            }
        };
        Ok(CommitInput { repo, action })
    }
}

} // verus!
