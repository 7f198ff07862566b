//! Properties of the shell that relate the parser, the path search and the
//! dispatcher, proved over their specifications.
use vstd::prelude::*;

use crate::command::{
    is_builtin, parse_line, CommandView, CD_COMMAND, ECHO_COMMAND, EXIT_COMMAND, PWD_COMMAND,
    TYPE_COMMAND,
};
use crate::search::{candidates, first_present, join, search_dirs};
use crate::shell::{
    step, ActionView, BUILTIN_SUFFIX, COMMAND_NOT_FOUND_SUFFIX, FOUND_INFIX, NOT_FOUND_SUFFIX,
};
use crate::text::{first_ws, head, is_ws, rest, trim, trim_end, trim_start, words};

verus! {

/// Whether `s` is all whitespace (possibly empty).
pub open spec fn all_ws(s: Seq<char>) -> bool {
    forall|i: int| 0 <= i < s.len() ==> is_ws(#[trigger] s[i])
}

/// Whether `s` is a word: not empty, and without whitespace.
pub open spec fn is_word(s: Seq<char>) -> bool {
    s.len() > 0 && forall|i: int| 0 <= i < s.len() ==> !is_ws(#[trigger] s[i])
}

/// Whether `s` is not empty and neither starts nor ends with whitespace.
pub open spec fn is_stripped(s: Seq<char>) -> bool {
    s.len() > 0 && !is_ws(s[0]) && !is_ws(s.last())
}

proof fn lemma_trim_start_ws_prefix(w: Seq<char>, a: Seq<char>)
    requires
        all_ws(w),
    ensures
        trim_start(w + a) == trim_start(a),
    decreases w.len(),
{
    if w.len() > 0 {
        assert((w + a)[0] == w[0]);
        assert((w + a).drop_first() =~= w.drop_first() + a);
        lemma_trim_start_ws_prefix(w.drop_first(), a);
    } else {
        assert(w + a =~= a);
    }
}

proof fn lemma_trim_end_ws_suffix(a: Seq<char>, w: Seq<char>)
    requires
        all_ws(w),
    ensures
        trim_end(a + w) == trim_end(a),
    decreases w.len(),
{
    if w.len() > 0 {
        assert((a + w).last() == w.last());
        assert((a + w).drop_last() =~= a + w.drop_last());
        lemma_trim_end_ws_suffix(a, w.drop_last());
    } else {
        assert(a + w =~= a);
    }
}

proof fn lemma_first_ws_of_word(k: Seq<char>, x: Seq<char>)
    requires
        forall|i: int| 0 <= i < k.len() ==> !is_ws(#[trigger] k[i]),
        x.len() == 0 || is_ws(x[0]),
    ensures
        first_ws(k + x) == k.len(),
    decreases k.len(),
{
    if k.len() > 0 {
        assert((k + x)[0] == k[0]);
        assert((k + x).drop_first() =~= k.drop_first() + x);
        assert forall|i: int| 0 <= i < k.drop_first().len() implies !is_ws(
            #[trigger] k.drop_first()[i],
        ) by {
            assert(k.drop_first()[i] == k[i + 1]);
        }
        lemma_first_ws_of_word(k.drop_first(), x);
    } else {
        assert(k + x =~= x);
    }
}

/// A line made of a word, whitespace, a stripped text and whitespace splits
/// into that word and that text.
proof fn lemma_split_line(kw: Seq<char>, w1: Seq<char>, s: Seq<char>, w2: Seq<char>)
    requires
        is_word(kw),
        w1.len() > 0,
        all_ws(w1),
        is_stripped(s),
        all_ws(w2),
    ensures
        ({
            let t = trim(kw + w1 + s + w2);
            &&& t == kw + w1 + s
            &&& head(t) == kw
            &&& rest(t) == w1 + s
            &&& trim(rest(t)) == s
        }),
{
    let line = kw + w1 + s + w2;
    assert(line[0] == kw[0]);
    assert(trim_start(line) == line);
    lemma_trim_end_ws_suffix(kw + w1 + s, w2);
    assert((kw + w1 + s).last() == s.last());
    assert(trim_end(kw + w1 + s) == kw + w1 + s);
    let t = kw + w1 + s;
    assert(t == kw + (w1 + s));
    assert((w1 + s)[0] == w1[0]);
    lemma_first_ws_of_word(kw, w1 + s);
    assert(head(t) =~= kw);
    assert(rest(t) =~= w1 + s);
    lemma_trim_start_ws_prefix(w1, s);
    assert(trim_start(s) == s);
    assert(trim_end(s) == s);
}

/// A line made of a word and whitespace holds that word alone.
proof fn lemma_lone_word(kw: Seq<char>, w: Seq<char>)
    requires
        is_word(kw),
        all_ws(w),
    ensures
        ({
            let t = trim(kw + w);
            &&& t == kw
            &&& head(t) == kw
            &&& rest(t) == Seq::<char>::empty()
        }),
{
    assert((kw + w)[0] == kw[0]);
    assert(trim_start(kw + w) == kw + w);
    lemma_trim_end_ws_suffix(kw, w);
    assert(trim_end(kw) == kw);
    lemma_first_ws_of_word(kw, Seq::<char>::empty());
    assert(kw + Seq::<char>::empty() =~= kw);
    assert(head(kw) =~= kw);
    assert(rest(kw) =~= Seq::<char>::empty());
}

proof fn lemma_builtins_are_words()
    ensures
        is_word(ECHO_COMMAND@),
        is_word(TYPE_COMMAND@),
        is_word(EXIT_COMMAND@),
        is_word(PWD_COMMAND@),
        is_word(CD_COMMAND@),
        ECHO_COMMAND@ != TYPE_COMMAND@,
        ECHO_COMMAND@ != CD_COMMAND@,
        TYPE_COMMAND@ != EXIT_COMMAND@,
        TYPE_COMMAND@ != PWD_COMMAND@,
        TYPE_COMMAND@ != CD_COMMAND@,
{
    reveal_strlit("echo");
    reveal_strlit("type");
    reveal_strlit("exit");
    reveal_strlit("pwd");
    reveal_strlit("cd");
    assert(ECHO_COMMAND@[0] != TYPE_COMMAND@[0]);
    assert(ECHO_COMMAND@[0] != CD_COMMAND@[0]);
    assert(TYPE_COMMAND@[0] != EXIT_COMMAND@[0]);
    assert(TYPE_COMMAND@[0] != PWD_COMMAND@[0]);
    assert(TYPE_COMMAND@[0] != CD_COMMAND@[0]);
}

/// The line `type B`, for a builtin name `B`, asks about `B`, and the answer
/// is `B is a shell builtin`, whatever the path search gave.
pub proof fn law_type_of_builtin(b: Seq<char>, cwd: Seq<char>, found: Option<Seq<char>>)
    requires
        is_builtin(b),
    ensures
        parse_line(TYPE_COMMAND@ + seq![' '] + b) == Ok::<CommandView, Seq<char>>(
            CommandView::Type(b),
        ),
        step(cwd, CommandView::Type(b), found) == ActionView::Print(b + BUILTIN_SUFFIX@),
{
    lemma_builtins_are_words();
    assert(is_ws(' '));
    assert(TYPE_COMMAND@ + seq![' '] + b =~= TYPE_COMMAND@ + seq![' '] + b + Seq::<char>::empty());
    assert(is_stripped(b));
    lemma_split_line(TYPE_COMMAND@, seq![' '], b, Seq::<char>::empty());
}

/// `echo` followed by whitespace, a text that is not empty and neither starts
/// nor ends with whitespace, and whitespace writes exactly that text: the
/// surrounding whitespace is dropped, the inner whitespace kept.
pub proof fn law_echo(w1: Seq<char>, s: Seq<char>, w2: Seq<char>, cwd: Seq<char>, found: Option<
    Seq<char>,
>)
    requires
        w1.len() > 0,
        all_ws(w1),
        is_stripped(s),
        all_ws(w2),
    ensures
        parse_line(ECHO_COMMAND@ + w1 + s + w2) == Ok::<CommandView, Seq<char>>(
            CommandView::Echo(s),
        ),
        step(cwd, CommandView::Echo(s), found) == ActionView::Print(s),
{
    lemma_builtins_are_words();
    lemma_split_line(ECHO_COMMAND@, w1, s, w2);
}

/// The path search finds nothing where no candidate is present.
pub proof fn law_nothing_present(files: Seq<Seq<char>>, present: Seq<bool>)
    requires
        forall|i: int| 0 <= i < present.len() ==> !#[trigger] present[i],
    ensures
        first_present(files, present) is None,
    decreases files.len(),
{
    if files.len() > 0 && present.len() > 0 {
        assert(!present[0]);
        assert forall|i: int| 0 <= i < present.drop_first().len() implies !#[trigger] present.drop_first()[i] by {
            assert(present.drop_first()[i] == present[i + 1]);
        }
        law_nothing_present(files.drop_first(), present.drop_first());
    }
}

/// The path search gives the first candidate that is present.
pub proof fn law_first_present_wins(files: Seq<Seq<char>>, present: Seq<bool>, k: int)
    requires
        0 <= k < files.len(),
        files.len() == present.len(),
        present[k],
        forall|j: int| 0 <= j < k ==> !#[trigger] present[j],
    ensures
        first_present(files, present) == Some(files[k]),
    decreases k,
{
    if k > 0 {
        assert(!present[0]);
        assert forall|j: int| 0 <= j < k - 1 implies !#[trigger] present.drop_first()[j] by {
            assert(present.drop_first()[j] == present[j + 1]);
        }
        law_first_present_wins(files.drop_first(), present.drop_first(), k - 1);
    }
}

/// A name that is no builtin, searched for on a path where no candidate file
/// is present: `type N` writes `N not found`, and the line `N`, with or
/// without arguments, writes `N: command not found`.
pub proof fn law_missing_name(
    n: Seq<char>,
    w: Seq<char>,
    args: Seq<char>,
    path: Seq<char>,
    present: Seq<bool>,
    cwd: Seq<char>,
)
    requires
        is_word(n),
        !is_builtin(n),
        w.len() > 0,
        all_ws(w),
        is_stripped(args),
        present.len() == candidates(path, n).len(),
        forall|i: int| 0 <= i < present.len() ==> !#[trigger] present[i],
    ensures
        step(cwd, CommandView::Type(n), first_present(candidates(path, n), present))
            == ActionView::Print(n + NOT_FOUND_SUFFIX@),
        parse_line(n) == Ok::<CommandView, Seq<char>>(CommandView::External(n, words(seq![]))),
        parse_line(n + w + args) == Ok::<CommandView, Seq<char>>(
            CommandView::External(n, words(w + args)),
        ),
        step(cwd, CommandView::External(n, words(w + args)), first_present(candidates(path, n), present))
            == ActionView::Print(n + COMMAND_NOT_FOUND_SUFFIX@),
        step(cwd, CommandView::External(n, words(seq![])), first_present(candidates(path, n), present))
            == ActionView::Print(n + COMMAND_NOT_FOUND_SUFFIX@),
{
    law_nothing_present(candidates(path, n), present);
    lemma_lone_word(n, Seq::<char>::empty());
    assert(n + Seq::<char>::empty() =~= n);
    assert(n + w + args =~= n + w + args + Seq::<char>::empty());
    lemma_split_line(n, w, args, Seq::<char>::empty());
}

/// Where the `k`-th directory `D` of the search path is the first whose
/// candidate file for the name `N` is present, the search gives `D/N`, and
/// `type N`, for a name that is no builtin, writes `N is D/N`.
pub proof fn law_first_directory_wins(
    n: Seq<char>,
    path: Seq<char>,
    present: Seq<bool>,
    k: int,
    cwd: Seq<char>,
)
    requires
        n.len() > 0,
        !is_builtin(n),
        0 <= k < search_dirs(path).len(),
        present.len() == search_dirs(path).len(),
        present[k],
        forall|j: int| 0 <= j < k ==> !#[trigger] present[j],
    ensures
        first_present(candidates(path, n), present) == Some(join(search_dirs(path)[k], n)),
        step(cwd, CommandView::Type(n), first_present(candidates(path, n), present))
            == ActionView::Print(n + FOUND_INFIX@ + (search_dirs(path)[k] + seq!['/'] + n)),
{
    law_first_present_wins(candidates(path, n), present, k);
}

/// `cd P`, for a path `P` that is not empty and neither starts nor ends with
/// whitespace, asks to change to `P`; once the working directory is `d`,
/// `pwd` writes `d`.
pub proof fn law_cd_then_pwd(p: Seq<char>, d: Seq<char>, cwd: Seq<char>, found: Option<
    Seq<char>,
>)
    requires
        is_stripped(p),
    ensures
        parse_line(CD_COMMAND@ + seq![' '] + p) == Ok::<CommandView, Seq<char>>(
            CommandView::Cd(p),
        ),
        step(cwd, CommandView::Cd(p), found) == ActionView::ChangeDir(p),
        parse_line(PWD_COMMAND@) == Ok::<CommandView, Seq<char>>(CommandView::Pwd),
        step(d, CommandView::Pwd, found) == ActionView::Print(d),
{
    lemma_builtins_are_words();
    assert(is_ws(' '));
    assert(CD_COMMAND@ + seq![' '] + p =~= CD_COMMAND@ + seq![' '] + p + Seq::<char>::empty());
    lemma_split_line(CD_COMMAND@, seq![' '], p, Seq::<char>::empty());
    lemma_lone_word(PWD_COMMAND@, Seq::<char>::empty());
    assert(PWD_COMMAND@ + Seq::<char>::empty() =~= PWD_COMMAND@);
    reveal_strlit("echo");
    reveal_strlit("type");
    reveal_strlit("exit");
    reveal_strlit("pwd");
    reveal_strlit("cd");
    assert(PWD_COMMAND@[0] != ECHO_COMMAND@[0]);
    assert(PWD_COMMAND@[0] != EXIT_COMMAND@[0]);
    assert(CD_COMMAND@[0] != EXIT_COMMAND@[0]);
    assert(CD_COMMAND@.len() != PWD_COMMAND@.len());
}

/// An empty line, or one of whitespace only, is a command with an empty
/// name, which the path search never finds: it writes `: command not found`.
pub proof fn law_empty_line(w: Seq<char>, path: Seq<char>, present: Seq<bool>, cwd: Seq<char>)
    requires
        all_ws(w),
    ensures
        parse_line(w) == Ok::<CommandView, Seq<char>>(CommandView::External(seq![], seq![])),
        first_present(candidates(path, seq![]), present) is None,
        step(cwd, CommandView::External(seq![], seq![]), None) == ActionView::Print(
            seq![] + COMMAND_NOT_FOUND_SUFFIX@,
        ),
{
    lemma_trim_start_ws_prefix(w, Seq::<char>::empty());
    assert(w + Seq::<char>::empty() =~= w);
    assert(trim(w) == Seq::<char>::empty());
    lemma_builtins_are_words();
    assert(first_ws(Seq::<char>::empty()) == 0);
    assert(head(Seq::<char>::empty()) =~= Seq::<char>::empty());
    assert(rest(Seq::<char>::empty()) =~= Seq::<char>::empty());
    assert(words(Seq::<char>::empty()) =~= Seq::<Seq<char>>::empty());
}

} // verus!
