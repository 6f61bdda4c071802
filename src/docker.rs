//! The Docker adapter: the command line that runs a request, and how the
//! child's status becomes the outcome of the run.
use vstd::prelude::*;
use vstd::string::*;

use crate::engine::{HostIdentity, LaunchStatus, RunError, RunRequest, words};

verus! {

/// The decimal digits, in order.
pub open spec fn digits() -> Seq<char> {
    "0123456789"@
}

/// The decimal digit for `d`, below ten.
pub open spec fn digit(d: nat) -> Seq<char> {
    digits().subrange(d as int, d as int + 1)
}

/// `n` written in decimal, without leading zeros.
pub open spec fn decimal(n: nat) -> Seq<char>
    decreases n,
{
    if n < 10 {
        digit(n)
    } else {
        decimal(n / 10) + digit(n % 10)
    }
}

/// Writes `n` in decimal.
pub fn decimal_string(n: u32) -> (r: String)
    ensures
        r@ == decimal(n as nat),
    decreases n,
{
    proof {
        reveal_strlit("0123456789");
    }
    if n < 10 {
        let d = n as usize;
        String::from_str("0123456789".substring_char(d, d + 1))
    } else {
        let mut r = decimal_string(n / 10);
        let d = (n % 10) as usize;
        r.append("0123456789".substring_char(d, d + 1));
        r
    }
}

/// The words of `ws` with one space between each two.
pub open spec fn join_words(ws: Seq<Seq<char>>) -> Seq<char>
    decreases ws.len(),
{
    if ws.len() == 0 {
        Seq::empty()
    } else if ws.len() == 1 {
        ws[0]
    } else {
        join_words(ws.drop_last()) + " "@ + ws.last()
    }
}

/// Joins the words of `ws` with one space between each two.
pub fn join_with_spaces(ws: &Vec<String>) -> (r: String)
    ensures
        r@ == join_words(words(ws@)),
{
    let mut r = String::new();
    let mut i: usize = 0;
    while i < ws.len()
        invariant
            i <= ws.len(),
            r@ == join_words(words(ws@).subrange(0, i as int)),
        decreases ws.len() - i,
    {
        let ghost pre = words(ws@).subrange(0, i as int);
        let ghost next = words(ws@).subrange(0, i + 1);
        assert(next.drop_last() =~= pre);
        assert(next.last() == ws@[i as int]@);
        if i > 0 {
            r.append(" ");
        }
        r.append(ws[i].as_str());
        i = i + 1;
    }
    assert(words(ws@).subrange(0, ws.len() as int) =~= words(ws@));
    r
}

/// A character that the shell takes as itself outside quotes: an ASCII
/// letter or digit, or one of `/ : . , _ - + = @ %`.
pub open spec fn safe_char(c: char) -> bool {
    ('a' <= c && c <= 'z') || ('A' <= c && c <= 'Z') || ('0' <= c && c <= '9') || c == '/' || c
        == ':' || c == '.' || c == ',' || c == '_' || c == '-' || c == '+' || c == '=' || c == '@'
        || c == '%'
}

/// Whether `c` is taken by the shell as itself outside quotes.
pub fn is_safe_char(c: char) -> (r: bool)
    ensures
        r == safe_char(c),
{
    ('a' <= c && c <= 'z') || ('A' <= c && c <= 'Z') || ('0' <= c && c <= '9') || c == '/' || c
        == ':' || c == '.' || c == ',' || c == '_' || c == '-' || c == '+' || c == '=' || c == '@'
        || c == '%'
}

/// A word that the shell reads back unchanged without quotes.
pub open spec fn plain_word(w: Seq<char>) -> bool {
    w.len() > 0 && forall|i: int| 0 <= i < w.len() ==> safe_char(#[trigger] w[i])
}

/// `w` with each single quote written as `'\''`, for use between single quotes.
pub open spec fn escape_quotes(w: Seq<char>) -> Seq<char>
    decreases w.len(),
{
    if w.len() == 0 {
        Seq::empty()
    } else {
        escape_quotes(w.drop_last()) + if w.last() == '\'' {
            "'\\''"@
        } else {
            seq![w.last()]
        }
    }
}

/// `w` written so that the shell reads it back as the one word `w`: as it is
/// where it is plain, else between single quotes.
pub open spec fn shell_quote(w: Seq<char>) -> Seq<char> {
    if plain_word(w) {
        w
    } else {
        "'"@ + escape_quotes(w) + "'"@
    }
}

/// How the shell reads the characters `s` of one word into the word's text:
/// between single quotes every character stands for itself up to the closing
/// quote; outside them a quote opens a quoted part, a backslash stands for the
/// character after it, and any other character for itself. `quoted` tells
/// whether reading starts between single quotes.
pub open spec fn shell_unquote(s: Seq<char>, quoted: bool) -> Seq<char>
    decreases s.len(),
{
    if s.len() == 0 {
        Seq::empty()
    } else if quoted {
        if s[0] == '\'' {
            shell_unquote(s.drop_first(), false)
        } else {
            seq![s[0]] + shell_unquote(s.drop_first(), true)
        }
    } else if s[0] == '\'' {
        shell_unquote(s.drop_first(), true)
    } else if s[0] == '\\' && s.len() > 1 {
        seq![s[1]] + shell_unquote(s.subrange(2, s.len() as int), false)
    } else {
        seq![s[0]] + shell_unquote(s.drop_first(), false)
    }
}

proof fn lemma_unquote_plain(w: Seq<char>)
    requires
        forall|i: int| 0 <= i < w.len() ==> safe_char(#[trigger] w[i]),
    ensures
        shell_unquote(w, false) == w,
    decreases w.len(),
{
    if w.len() > 0 {
        assert(safe_char(w[0]));
        let rest = w.drop_first();
        assert forall|i: int| 0 <= i < rest.len() implies safe_char(#[trigger] rest[i]) by {
            assert(rest[i] == w[i + 1]);
        }
        lemma_unquote_plain(rest);
        assert(w =~= seq![w[0]] + rest);
    }
}

proof fn lemma_unquote_escaped(w: Seq<char>, t: Seq<char>)
    ensures
        shell_unquote(escape_quotes(w) + t, true) == w + shell_unquote(t, true),
    decreases w.len(),
{
    reveal_strlit("'\\''");
    if w.len() == 0 {
        assert(escape_quotes(w) + t =~= t);
        assert(w + shell_unquote(t, true) =~= shell_unquote(t, true));
    } else {
        let c = w.last();
        let part = if c == '\'' {
            "'\\''"@
        } else {
            seq![c]
        };
        let x = part + t;
        assert(escape_quotes(w) + t =~= escape_quotes(w.drop_last()) + x);
        lemma_unquote_escaped(w.drop_last(), x);
        if c == '\'' {
            assert(part =~= seq!['\'', '\\', '\'', '\'']);
            assert(x[0] == '\'');
            let s1 = x.drop_first();
            assert(s1 =~= seq!['\\', '\''] + (seq!['\''] + t));
            assert(shell_unquote(x, true) == shell_unquote(s1, false));
            let s3 = s1.subrange(2, s1.len() as int);
            assert(s3 =~= seq!['\''] + t);
            assert(s1[0] == '\\' && s1[1] == '\'');
            assert(shell_unquote(s1, false) == seq!['\''] + shell_unquote(s3, false));
            assert(s3[0] == '\'');
            assert(s3.drop_first() =~= t);
            assert(shell_unquote(s3, false) == shell_unquote(t, true));
            assert(shell_unquote(x, true) == seq![c] + shell_unquote(t, true));
        } else {
            assert(x.drop_first() =~= t);
        }
        assert(w =~= w.drop_last() + seq![c]);
        assert(w + shell_unquote(t, true) =~= w.drop_last() + (seq![c] + shell_unquote(t, true)));
    }
}

/// Whether the shell, reading `s` from the state `quoted`, meets outside
/// single quotes only plain characters, quotes and backslash pairs (so no
/// blank that would end the word, and nothing it would expand or act on), and
/// ends outside quotes.
pub open spec fn shell_inert(s: Seq<char>, quoted: bool) -> bool
    decreases s.len(),
{
    if s.len() == 0 {
        !quoted
    } else if quoted {
        shell_inert(s.drop_first(), s[0] != '\'')
    } else if s[0] == '\'' {
        shell_inert(s.drop_first(), true)
    } else if s[0] == '\\' && s.len() > 1 {
        shell_inert(s.subrange(2, s.len() as int), false)
    } else {
        safe_char(s[0]) && shell_inert(s.drop_first(), false)
    }
}

proof fn lemma_inert_plain(w: Seq<char>)
    requires
        forall|i: int| 0 <= i < w.len() ==> safe_char(#[trigger] w[i]),
    ensures
        shell_inert(w, false),
    decreases w.len(),
{
    if w.len() > 0 {
        assert(safe_char(w[0]));
        let rest = w.drop_first();
        assert forall|i: int| 0 <= i < rest.len() implies safe_char(#[trigger] rest[i]) by {
            assert(rest[i] == w[i + 1]);
        }
        lemma_inert_plain(rest);
    }
}

proof fn lemma_inert_escaped(w: Seq<char>, t: Seq<char>)
    ensures
        shell_inert(escape_quotes(w) + t, true) == shell_inert(t, true),
    decreases w.len(),
{
    reveal_strlit("'\\''");
    if w.len() == 0 {
        assert(escape_quotes(w) + t =~= t);
    } else {
        let c = w.last();
        let part = if c == '\'' {
            "'\\''"@
        } else {
            seq![c]
        };
        let x = part + t;
        assert(escape_quotes(w) + t =~= escape_quotes(w.drop_last()) + x);
        lemma_inert_escaped(w.drop_last(), x);
        if c == '\'' {
            assert(part =~= seq!['\'', '\\', '\'', '\'']);
            assert(x[0] == '\'');
            let s1 = x.drop_first();
            assert(s1 =~= seq!['\\', '\''] + (seq!['\''] + t));
            assert(shell_inert(x, true) == shell_inert(s1, false));
            let s3 = s1.subrange(2, s1.len() as int);
            assert(s3 =~= seq!['\''] + t);
            assert(s1[0] == '\\');
            assert(shell_inert(s1, false) == shell_inert(s3, false));
            assert(s3[0] == '\'');
            assert(s3.drop_first() =~= t);
        } else {
            assert(x.drop_first() =~= t);
        }
    }
}

/// Quoting is undone by the shell: the quoted form of any word `w`, whatever
/// characters it holds, meets the shell outside quotes with nothing that would
/// split, expand or end it, and reading it gives back exactly `w`.
pub proof fn lemma_shell_reads_quoted_word(w: Seq<char>)
    ensures
        shell_inert(shell_quote(w), false),
        shell_unquote(shell_quote(w), false) == w,
{
    reveal_strlit("'");
    if plain_word(w) {
        lemma_unquote_plain(w);
        lemma_inert_plain(w);
    } else {
        let q = "'"@ + escape_quotes(w) + "'"@;
        assert(q[0] == '\'');
        assert(q.drop_first() =~= escape_quotes(w) + "'"@);
        assert(shell_unquote(q, false) == shell_unquote(q.drop_first(), true));
        lemma_unquote_escaped(w, "'"@);
        lemma_inert_escaped(w, "'"@);
        assert(shell_inert(q, false) == shell_inert(q.drop_first(), true));
        assert("'"@.drop_first() =~= Seq::<char>::empty());
        assert(shell_inert("'"@, true) == shell_inert(Seq::<char>::empty(), false));
        assert(shell_unquote("'"@, true) == shell_unquote(Seq::<char>::empty(), false));
        assert(w + Seq::<char>::empty() =~= w);
    }
}

/// The raw words into which the shell splits `s` at blanks outside single
/// quotes, reading from the state `quoted` with `cur` already read of the
/// current word.
pub open spec fn shell_split(s: Seq<char>, quoted: bool, cur: Seq<char>) -> Seq<Seq<char>>
    decreases s.len(),
{
    if s.len() == 0 {
        if cur.len() > 0 {
            seq![cur]
        } else {
            Seq::empty()
        }
    } else if !quoted && s[0] == ' ' {
        (if cur.len() > 0 {
            seq![cur]
        } else {
            Seq::empty()
        }) + shell_split(s.drop_first(), false, Seq::empty())
    } else if !quoted && s[0] == '\\' && s.len() > 1 {
        shell_split(s.subrange(2, s.len() as int), false, cur + s.subrange(0, 2))
    } else if s[0] == '\'' {
        shell_split(s.drop_first(), !quoted, cur.push(s[0]))
    } else {
        shell_split(s.drop_first(), quoted, cur.push(s[0]))
    }
}

/// The arguments that the shell hands on when it reads the command `line`.
pub open spec fn shell_words(line: Seq<char>) -> Seq<Seq<char>> {
    shell_split(line, false, Seq::empty()).map_values(|r: Seq<char>| shell_unquote(r, false))
}

proof fn lemma_split_inert(p: Seq<char>, quoted: bool, cur: Seq<char>, rest: Seq<char>)
    requires
        shell_inert(p, quoted),
        rest.len() == 0 || rest[0] == ' ',
    ensures
        shell_split(p + rest, quoted, cur) == shell_split(rest, false, cur + p),
    decreases p.len(),
{
    let s = p + rest;
    if p.len() == 0 {
        assert(s =~= rest);
        assert(cur + p =~= cur);
    } else if !quoted && p[0] == '\\' && p.len() > 1 {
        let tail = p.subrange(2, p.len() as int);
        assert(s.subrange(2, s.len() as int) =~= tail + rest);
        lemma_split_inert(tail, false, cur + s.subrange(0, 2), rest);
        assert(cur + s.subrange(0, 2) + tail =~= cur + p);
    } else {
        assert(s[0] == p[0]);
        assert(s.drop_first() =~= p.drop_first() + rest);
        let next = if p[0] == '\'' {
            !quoted
        } else {
            quoted
        };
        lemma_split_inert(p.drop_first(), next, cur.push(p[0]), rest);
        assert(cur.push(p[0]) + p.drop_first() =~= cur + p);
    }
}

proof fn lemma_split_joined(qs: Seq<Seq<char>>, rest: Seq<char>)
    requires
        qs.len() > 0,
        forall|i: int| 0 <= i < qs.len() ==> #[trigger] shell_inert(qs[i], false) && qs[i].len() > 0,
        rest.len() == 0 || rest[0] == ' ',
    ensures
        shell_split(join_words(qs) + rest, false, Seq::empty()) == qs.drop_last() + shell_split(
            rest,
            false,
            qs.last(),
        ),
    decreases qs.len(),
{
    reveal_strlit(" ");
    assert(shell_inert(qs[qs.len() - 1], false));
    if qs.len() == 1 {
        lemma_split_inert(qs[0], false, Seq::empty(), rest);
        assert(Seq::<char>::empty() + qs[0] =~= qs[0]);
        assert(qs.drop_last() + shell_split(rest, false, qs.last()) =~= shell_split(rest, false, qs.last()));
    } else {
        let init = qs.drop_last();
        let last = qs.last();
        let more = " "@ + last + rest;
        assert(join_words(qs) + rest =~= join_words(init) + more);
        assert forall|i: int| 0 <= i < init.len() implies #[trigger] shell_inert(init[i], false)
            && init[i].len() > 0 by {
            assert(init[i] == qs[i]);
            assert(shell_inert(qs[i], false));
        }
        lemma_split_joined(init, more);
        assert(init.last() == qs[qs.len() - 2]);
        assert(shell_inert(qs[qs.len() - 2], false));
        assert(more[0] == ' ');
        assert(more.drop_first() =~= last + rest);
        lemma_split_inert(last, false, Seq::empty(), rest);
        assert(Seq::<char>::empty() + last =~= last);
        assert(shell_split(more, false, init.last()) == seq![init.last()] + shell_split(
            last + rest,
            false,
            Seq::empty(),
        ));
        assert(init.drop_last() + (seq![init.last()] + shell_split(rest, false, last)) =~= init
            + shell_split(rest, false, last));
    }
}

/// The shell reads a command line made of quoted words back into exactly
/// those words: splitting `join_words(quote_all(ws))` at blanks outside quotes
/// and unquoting each part gives `ws`, for any non-empty list of words with
/// any characters in them.
pub proof fn lemma_shell_reads_command(ws: Seq<Seq<char>>)
    requires
        ws.len() > 0,
    ensures
        shell_words(join_words(quote_all(ws))) == ws,
{
    let qs = quote_all(ws);
    assert forall|i: int| 0 <= i < qs.len() implies #[trigger] shell_inert(qs[i], false)
        && qs[i].len() > 0 by {
        lemma_shell_reads_quoted_word(ws[i]);
        reveal_strlit("'");
        assert(qs[i] == shell_quote(ws[i]));
    }
    lemma_split_joined(qs, Seq::empty());
    assert(join_words(qs) + Seq::<char>::empty() =~= join_words(qs));
    assert(qs.drop_last() + seq![qs.last()] =~= qs);
    assert(shell_inert(qs[qs.len() - 1], false));
    assert(shell_split(Seq::empty(), false, qs.last()) == seq![qs.last()]);
    let raw = shell_split(join_words(qs), false, Seq::empty());
    assert(raw == qs);
    assert forall|i: int| 0 <= i < ws.len() implies #[trigger] shell_words(join_words(qs))[i] == ws[i] by {
        lemma_shell_reads_quoted_word(ws[i]);
    }
    assert(shell_words(join_words(qs)) =~= ws);
}

/// Each word of `ws` quoted for the shell.
pub open spec fn quote_all(ws: Seq<Seq<char>>) -> Seq<Seq<char>> {
    ws.map_values(|w: Seq<char>| shell_quote(w))
}

/// Quotes `w` so that the shell reads it back as the one word `w`.
pub fn quote_word(w: &String) -> (r: String)
    ensures
        r@ == shell_quote(w@),
{
    let text = w.as_str();
    let n = text.unicode_len();
    let mut plain = n > 0;
    let mut i: usize = 0;
    while i < n
        invariant
            n == w@.len(),
            text@ == w@,
            i <= n,
            plain == (n > 0 && forall|j: int| 0 <= j < i ==> safe_char(#[trigger] w@[j])),
        decreases n - i,
    {
        let c = text.get_char(i);
        if !is_safe_char(c) {
            plain = false;
        }
        i = i + 1;
    }
    if plain {
        return w.clone();
    }
    proof {
        reveal_strlit("'");
        reveal_strlit("'\\''");
    }
    let mut r = String::from_str("'");
    i = 0;
    while i < n
        invariant
            n == w@.len(),
            text@ == w@,
            i <= n,
            r@ == "'"@ + escape_quotes(w@.subrange(0, i as int)),
        decreases n - i,
    {
        let ghost pre = w@.subrange(0, i as int);
        let ghost next = w@.subrange(0, i + 1);
        assert(next.drop_last() =~= pre);
        assert(next.last() == w@[i as int]);
        let c = text.get_char(i);
        if c == '\'' {
            r.append("'\\''");
        } else {
            let one = text.substring_char(i, i + 1);
            assert(one@ =~= seq![c]);
            r.append(one);
        }
        i = i + 1;
    }
    assert(w@.subrange(0, n as int) =~= w@);
    r.append("'");
    r
}

/// Quotes each word of `ws` for the shell.
pub fn quote_words(ws: &Vec<String>) -> (r: Vec<String>)
    ensures
        words(r@) == quote_all(words(ws@)),
{
    let mut r: Vec<String> = Vec::new();
    let mut i: usize = 0;
    while i < ws.len()
        invariant
            i <= ws.len(),
            words(r@) =~= quote_all(words(ws@).subrange(0, i as int)),
        decreases ws.len() - i,
    {
        let ghost before = r@;
        let q = quote_word(&ws[i]);
        r.push(q);
        assert(words(r@) =~= words(before) + seq![q@]);
        assert(quote_all(words(ws@).subrange(0, i + 1)) =~= quote_all(words(ws@).subrange(0, i as int))
            + seq![shell_quote(ws@[i as int]@)]);
        i = i + 1;
    }
    assert(words(ws@).subrange(0, ws.len() as int) =~= words(ws@));
    r
}

/// The flags that run the container as the host user, where there is one.
pub open spec fn user_flags(identity: Option<HostIdentity>) -> Seq<Seq<char>> {
    match identity {
        Some(id) => seq!["--user"@, decimal(id.uid as nat) + ":"@ + decimal(id.gid as nat)],
        None => Seq::empty(),
    }
}

/// The words of the Docker invocation that runs `image` with `args`, with the
/// host directory `working_dir` mounted at `/w` and used as working directory.
pub open spec fn docker_argv(
    image: Seq<char>,
    args: Seq<Seq<char>>,
    working_dir: Seq<char>,
    identity: Option<HostIdentity>,
) -> Seq<Seq<char>> {
    seq!["docker"@, "run"@, "--volume"@, working_dir + ":/w"@, "--workdir"@, "/w"@] + user_flags(
        identity,
    ) + seq![image] + args
}

/// The Docker invocation is laid out in a fixed order: `docker run`, the
/// volume flag binding the working directory to `/w`, the workdir flag set to
/// `/w`, the user flag carrying the host identity where there is one, the
/// image, and last the application's arguments, all of them and unchanged.
pub proof fn lemma_invocation_layout(
    image: Seq<char>,
    args: Seq<Seq<char>>,
    working_dir: Seq<char>,
    identity: Option<HostIdentity>,
)
    ensures
        ({
            let argv = docker_argv(image, args, working_dir, identity);
            let k: int = 6 + user_flags(identity).len() as int;
            &&& argv.len() == k + 1 + args.len()
            &&& argv.subrange(0, 6) == seq!["docker"@, "run"@, "--volume"@, working_dir + ":/w"@, "--workdir"@, "/w"@]
            &&& argv.subrange(6, k) == user_flags(identity)
            &&& argv[k] == image
            &&& argv.subrange(k + 1, argv.len() as int) == args
        }),
        identity matches Some(id) ==> user_flags(identity) == seq![
            "--user"@,
            decimal(id.uid as nat) + ":"@ + decimal(id.gid as nat),
        ],
        identity is None ==> user_flags(identity).len() == 0,
{
    let argv = docker_argv(image, args, working_dir, identity);
    let k: int = 6 + user_flags(identity).len() as int;
    assert(argv.subrange(0, 6) =~= seq!["docker"@, "run"@, "--volume"@, working_dir + ":/w"@, "--workdir"@, "/w"@]);
    assert(argv.subrange(6, k) =~= user_flags(identity));
    assert(argv.subrange(k + 1, argv.len() as int) =~= args);
}

/// The shell that runs the composed command line hands docker exactly the
/// invocation's words: the working directory as the single word after
/// `--volume` (followed by `:/w`), and the application's arguments after the
/// image, each one whole and unchanged, whatever characters it holds.
pub proof fn lemma_shell_hands_docker_its_words(
    image: Seq<char>,
    args: Seq<Seq<char>>,
    working_dir: Seq<char>,
    identity: Option<HostIdentity>,
)
    ensures
        shell_words(join_words(quote_all(docker_argv(image, args, working_dir, identity))))
            == docker_argv(image, args, working_dir, identity),
{
    lemma_shell_reads_command(docker_argv(image, args, working_dir, identity));
}

/// The words of the Docker invocation for `request`.
pub open spec fn request_argv(request: RunRequest, identity: Option<HostIdentity>) -> Seq<
    Seq<char>,
> {
    docker_argv(request.image@, words(request.args@), request.working_dir@, identity)
}

/// The shell command line that runs `request` under Docker: each word of the
/// invocation quoted for the shell, with one space between each two.
pub open spec fn docker_command(request: RunRequest, identity: Option<HostIdentity>) -> Seq<char> {
    join_words(quote_all(request_argv(request, identity)))
}

/// Builds the words of the Docker invocation for `request`.
pub fn docker_arguments(request: &RunRequest, identity: Option<HostIdentity>) -> (r: Vec<String>)
    ensures
        words(r@) == request_argv(*request, identity),
{
    let mut v: Vec<String> = Vec::new();
    v.push(String::from_str("docker"));
    v.push(String::from_str("run"));
    v.push(String::from_str("--volume"));
    let mut volume = request.working_dir.clone();
    volume.append(":/w");
    v.push(volume);
    v.push(String::from_str("--workdir"));
    v.push(String::from_str("/w"));
    match identity {
        Some(id) => {
            v.push(String::from_str("--user"));
            let mut user = decimal_string(id.uid);
            user.append(":");
            let gid = decimal_string(id.gid);
            user.append(gid.as_str());
            v.push(user);
        },
        None => {},
    }
    v.push(String::from_str(request.image.as_str()));
    let ghost head = words(v@);
    assert(head =~= seq!["docker"@, "run"@, "--volume"@, request.working_dir@ + ":/w"@, "--workdir"@, "/w"@]
        + user_flags(identity) + seq![request.image@]);
    let mut i: usize = 0;
    while i < request.args.len()
        invariant
            i <= request.args.len(),
            words(v@) =~= head + words(request.args@).subrange(0, i as int),
        decreases request.args.len() - i,
    {
        let ghost before = v@;
        v.push(request.args[i].clone());
        assert(words(v@) =~= words(before) + seq![request.args@[i as int]@]);
        assert(words(request.args@).subrange(0, i + 1) =~= words(request.args@).subrange(0, i as int)
            + seq![request.args@[i as int]@]);
        i = i + 1;
    }
    assert(words(request.args@).subrange(0, request.args.len() as int) =~= words(request.args@));
    v
}

/// Composes the shell command line that runs `request` under Docker.
pub fn docker_command_line(request: &RunRequest, identity: Option<HostIdentity>) -> (r: String)
    ensures
        r@ == docker_command(*request, identity),
{
    let argv = docker_arguments(request, identity);
    let quoted = quote_words(&argv);
    join_with_spaces(&quoted)
}

/// The outcome of a run whose child ended as `status`.
pub open spec fn launch_outcome(status: LaunchStatus) -> Result<(), RunError> {
    match status {
        LaunchStatus::Exited(code) => if code == 0 {
            Ok(())
        } else {
            Err(RunError::NonZeroExit(Some(code)))
        },
        LaunchStatus::Terminated => Err(RunError::NonZeroExit(None)),
        LaunchStatus::FailedToStart(msg) => Err(RunError::ProcessStart(msg)),
    }
}

/// Interprets how the child ended: success exactly on exit status zero.
pub fn docker_outcome(status: LaunchStatus) -> (r: Result<(), RunError>)
    ensures
        r == launch_outcome(status),
{
    match status {
        LaunchStatus::Exited(code) => if code == 0 {
            Ok(())
        } else {
            Err(RunError::NonZeroExit(Some(code)))
        },
        LaunchStatus::Terminated => Err(RunError::NonZeroExit(None)),
        LaunchStatus::FailedToStart(msg) => Err(RunError::ProcessStart(msg)),
    }
}

/// Relies on users::get_current_uid: the real user id of the running process.
#[verifier::external_body]
fn current_uid() -> (r: u32) {
    users::get_current_uid()
}

/// Relies on users::get_current_gid: the real group id of the running process.
#[verifier::external_body]
fn current_gid() -> (r: u32) {
    users::get_current_gid()
}

/// The host user's identity where the platform has numeric user and group
/// ids (`has_numeric_ids`), and `None` where it has none.
pub fn host_identity(has_numeric_ids: bool) -> (r: Option<HostIdentity>)
    ensures
        r is Some <==> has_numeric_ids,
{
    if has_numeric_ids {
        Some(HostIdentity { uid: current_uid(), gid: current_gid() })
    } else {
        None
    }
}

} // verus!
