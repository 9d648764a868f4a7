//! The command that starts a session child: the template split into words,
//! its placeholders filled in from the peer and the PTY.

use vstd::prelude::*;
use vstd::string::*;
use crate::config::{SessionConfig, SessionMode};
use crate::session::{SessionError, SessionPeerInfo};
use crate::text::{chars_of, is_space, is_space_char, replace_all, replace_chars, string_of, strip_prefixes, strip_prefixes_chars};

verus! {

/// A character kept as it is in the `{host}` placeholder.
pub open spec fn is_host_char(c: char) -> bool {
    ||| 'a' <= c <= 'z'
    ||| 'A' <= c <= 'Z'
    ||| '0' <= c <= '9'
    ||| c == '-'
    ||| c == '_'
    ||| c == '.'
}

/// The peer name with host characters kept, white space turned into `-`,
/// and every other character dropped.
pub open spec fn host_filter(s: Seq<char>) -> Seq<char>
    decreases s.len(),
{
    if s.len() == 0 {
        Seq::empty()
    } else {
        let rest = host_filter(s.drop_last());
        let c = s.last();
        if is_host_char(c) {
            rest.push(c)
        } else if is_space(c) {
            rest.push('-')
        } else {
            rest
        }
    }
}

/// The value of the `{host}` placeholder for a peer name.
pub open spec fn host_token(name: Seq<char>) -> Seq<char> {
    if host_filter(name).len() == 0 {
        "bluetooth-peer"@
    } else {
        host_filter(name)
    }
}

fn is_host_char_exec(c: char) -> (r: bool)
    ensures
        r == is_host_char(c),
{
    ('a' <= c && c <= 'z') || ('A' <= c && c <= 'Z') || ('0' <= c && c <= '9') || c == '-' || c
        == '_' || c == '.'
}

/// The `{host}` placeholder value: the peer name reduced to characters that
/// are safe in a host name, or `bluetooth-peer` where nothing is left.
pub fn render_host_token(name: &str) -> (r: String)
    ensures
        r@ == host_token(name@),
{
    let cs = chars_of(name);
    let mut out: Vec<char> = Vec::new();
    let mut i: usize = 0;
    while i < cs.len()
        invariant
            i <= cs.len(),
            cs@ == name@,
            out@ == host_filter(cs@.take(i as int)),
        decreases cs.len() - i,
    {
        let c = cs[i];
        assert(cs@.take(i + 1).drop_last() =~= cs@.take(i as int));
        if is_host_char_exec(c) {
            out.push(c);
        } else if is_space_char(c) {
            out.push('-');
        }
        i = i + 1;
    }
    assert(cs@.take(cs.len() as int) =~= cs@);
    if out.len() == 0 {
        String::from_str("bluetooth-peer")
    } else {
        string_of(&out)
    }
}


proof fn lemma_host_filter_chars(s: Seq<char>)
    ensures
        forall|i: int| 0 <= i < host_filter(s).len() ==> is_host_char(#[trigger] host_filter(s)[i]),
    decreases s.len(),
{
    if s.len() > 0 {
        let rest = host_filter(s.drop_last());
        lemma_host_filter_chars(s.drop_last());
        assert(is_host_char('-'));
        assert forall|i: int| 0 <= i < host_filter(s).len() implies is_host_char(
            #[trigger] host_filter(s)[i],
        ) by {
            if i < rest.len() {
                assert(host_filter(s)[i] == rest[i]);
            }
        }
    }
}

/// The `{host}` placeholder is never empty and holds only ASCII letters,
/// digits, `-`, `_` and `.`, whatever the peer's name.
pub proof fn lemma_host_token_is_host_name(name: Seq<char>)
    ensures
        host_token(name).len() > 0,
        forall|i: int| 0 <= i < host_token(name).len() ==> is_host_char(#[trigger] host_token(name)[i]),
{
    lemma_host_filter_chars(name);
    reveal_strlit("bluetooth-peer");
}

#[verifier::external_type_specification]
#[verifier::external_body]
pub struct ExShellWordsParseError(shell_words::ParseError);

/// What `shell_words::split` makes of a text: its words, or `None` where a
/// quote is left open.
pub uninterp spec fn shell_split(s: Seq<char>) -> Option<Seq<Seq<char>>>;

/// `shell_words::split`. The contract claims that the result is the named
/// split of the text: the words on success, an error otherwise. The shell-like
/// quoting rules themselves are not restated here.
#[verifier::external_body]
fn split_words(s: &str) -> (r: Result<Vec<String>, shell_words::ParseError>)
    ensures
        match shell_split(s@) {
            Some(ws) => r matches Ok(v) && v.deep_view() == ws,
            None => r is Err,
        },
{
    shell_words::split(s)
}

/// A template word with `{tty}`, `{addr}`, `{name}` and `{host}` replaced, in
/// that order.
pub open spec fn render_token(
    t: Seq<char>,
    tty: Seq<char>,
    addr: Seq<char>,
    name: Seq<char>,
    host: Seq<char>,
) -> Seq<char> {
    replace_all(
        replace_all(replace_all(replace_all(t, "{tty}"@, tty), "{addr}"@, addr), "{name}"@, name),
        "{host}"@,
        host,
    )
}

/// Every template word rendered for a PTY name and a peer.
pub open spec fn rendered_words(
    words: Seq<Seq<char>>,
    tty: Seq<char>,
    addr: Seq<char>,
    name: Seq<char>,
) -> Seq<Seq<char>> {
    words.map_values(|t: Seq<char>| render_token(t, tty, addr, name, host_token(name)))
}

/// Fills the placeholders of every template word.
pub fn render_tokens(tokens: &Vec<String>, tty: &str, peer: &SessionPeerInfo) -> (r: Vec<String>)
    ensures
        r.deep_view() == rendered_words(tokens.deep_view(), tty@, peer.address@, peer.name@),
{
    proof {
        reveal_strlit("{tty}");
        reveal_strlit("{addr}");
        reveal_strlit("{name}");
        reveal_strlit("{host}");
    }
    let host = chars_of(render_host_token(peer.name.as_str()).as_str());
    let tty_c = chars_of(tty);
    let addr = chars_of(peer.address.as_str());
    let name = chars_of(peer.name.as_str());
    let p_tty = chars_of("{tty}");
    let p_addr = chars_of("{addr}");
    let p_name = chars_of("{name}");
    let p_host = chars_of("{host}");
    let ghost expected = rendered_words(tokens.deep_view(), tty@, peer.address@, peer.name@);
    let mut out: Vec<String> = Vec::new();
    let mut i: usize = 0;
    while i < tokens.len()
        invariant
            i <= tokens.len(),
            expected == rendered_words(tokens.deep_view(), tty@, peer.address@, peer.name@),
            host@ == host_token(peer.name@),
            tty_c@ == tty@,
            addr@ == peer.address@,
            name@ == peer.name@,
            p_tty@ == "{tty}"@,
            p_addr@ == "{addr}"@,
            p_name@ == "{name}"@,
            p_host@ == "{host}"@,
            p_tty.len() > 0,
            p_addr.len() > 0,
            p_name.len() > 0,
            p_host.len() > 0,
            out.len() == i,
            forall|k: int| 0 <= k < i ==> #[trigger] out@[k]@ == expected[k],
        decreases tokens.len() - i,
    {
        let t = chars_of(tokens[i].as_str());
        let a = replace_chars(&t, &p_tty, &tty_c);
        let b = replace_chars(&a, &p_addr, &addr);
        let c = replace_chars(&b, &p_name, &name);
        let d = replace_chars(&c, &p_host, &host);
        out.push(string_of(&d));
        i = i + 1;
    }
    assert(out.deep_view() =~= expected);
    out
}

/// The words of the session command: the template split as a shell would,
/// each word's placeholders filled in.
pub fn render_subcommand_args(config: &SessionConfig, tty: &str, peer: &SessionPeerInfo) -> (r:
    Result<Vec<String>, SessionError>)
    ensures
        match shell_split(config.subcommand_template@) {
            Some(ws) => r matches Ok(v) && v.deep_view() == rendered_words(
                ws,
                tty@,
                peer.address@,
                peer.name@,
            ),
            None => r matches Err(SessionError::InvalidTemplate(t)) && t@
                == config.subcommand_template@,
        },
{
    match split_words(config.subcommand_template.as_str()) {
        Ok(words) => Ok(render_tokens(&words, tty, peer)),
        Err(_) => Err(SessionError::InvalidTemplate(config.subcommand_template.clone())),
    }
}


/// The PTY name passed as `{tty}`: the slave path without its leading `/dev/`
/// (every leading repetition of it).
pub open spec fn tty_arg(pty_slave_path: Seq<char>) -> Seq<char> {
    strip_prefixes(pty_slave_path, "/dev/"@)
}

/// What starts a session child: program, arguments, the `{tty}` value, and
/// whether the child gets a session of its own.
#[derive(Debug)]
pub struct SessionCommand {
    pub program: String,
    pub args: Vec<String>,
    pub tty: String,
    pub setsid: bool,
}

/// The command for a session on the given PTY and peer. The child gets its
/// own session (`setsid`) in getty mode only.
pub fn prepare_session_command(
    config: &SessionConfig,
    pty_slave_path: &str,
    peer: &SessionPeerInfo,
) -> (r: Result<SessionCommand, SessionError>)
    ensures
        match shell_split(config.subcommand_template@) {
            Some(ws) => {
                let argv = rendered_words(
                    ws,
                    tty_arg(pty_slave_path@),
                    peer.address@,
                    peer.name@,
                );
                if argv.len() == 0 {
                    r matches Err(SessionError::EmptyCommand)
                } else {
                    r matches Ok(c) && c.program@ == argv[0] && c.args.deep_view()
                        == argv.drop_first() && c.tty@ == tty_arg(pty_slave_path@) && c.setsid
                        == (config.mode == SessionMode::Getty)
                }
            },
            None => r matches Err(SessionError::InvalidTemplate(t)) && t@
                == config.subcommand_template@,
        },
{
    let tty = string_of(&strip_prefixes_chars(&chars_of(pty_slave_path), &chars_of("/dev/")));
    let mut argv = match render_subcommand_args(config, tty.as_str(), peer) {
        Ok(v) => v,
        Err(e) => return Err(e),
    };
    if argv.len() == 0 {
        return Err(SessionError::EmptyCommand);
    }
    let ghost before = argv.deep_view();
    let program = argv.remove(0);
    assert(argv.deep_view() =~= before.drop_first());
    let setsid = match config.mode {
        SessionMode::Getty => true,
        _ => false,
    };
    Ok(SessionCommand { program, args: argv, tty, setsid })
}

/// How `{:?}` shows a string: quoted, with escapes.
pub uninterp spec fn debug_text(s: Seq<char>) -> Seq<char>;

/// `format!("{:?}", s)` for a `String`. The contract claims that the result is
/// the named debug rendering of the text; the escaping rules are not restated.
#[verifier::external_body]
fn debug_quote(s: &String) -> (r: String)
    ensures
        r@ == debug_text(s@),
{
    format!("{:?}", s)
}

/// Words joined with a separator between each two.
pub open spec fn join_words(ws: Seq<Seq<char>>, sep: Seq<char>) -> Seq<char>
    decreases ws.len(),
{
    if ws.len() == 0 {
        Seq::empty()
    } else if ws.len() == 1 {
        ws[0]
    } else {
        join_words(ws.drop_last(), sep) + sep + ws.last()
    }
}

/// The arguments as shown in the log: each in debug form, space separated.
pub fn quote_args(args: &Vec<String>) -> (r: String)
    ensures
        r@ == join_words(args.deep_view().map_values(|a: Seq<char>| debug_text(a)), seq![' ']),
{
    let ghost all = args.deep_view().map_values(|a: Seq<char>| debug_text(a));
    let mut out: Vec<char> = Vec::new();
    let mut i: usize = 0;
    while i < args.len()
        invariant
            i <= args.len(),
            all == args.deep_view().map_values(|a: Seq<char>| debug_text(a)),
            out@ == join_words(all.take(i as int), seq![' ']),
        decreases args.len() - i,
    {
        let q = chars_of(debug_quote(&args[i]).as_str());
        assert(q@ == all[i as int]);
        let ghost before = out@;
        if i > 0 {
            out.push(' ');
        }
        let mut k: usize = 0;
        while k < q.len()
            invariant
                k <= q.len(),
                out@ == (if i > 0 {
                    before.push(' ')
                } else {
                    before
                }) + q@.take(k as int),
            decreases q.len() - k,
        {
            out.push(q[k]);
            assert(q@.take(k + 1) =~= q@.take(k as int).push(q@[k as int]));
            k = k + 1;
        }
        assert(q@.take(q.len() as int) =~= q@);
        assert(all.take(i + 1).drop_last() =~= all.take(i as int));
        if i == 0 {
            assert(all.take(1) =~= seq![q@]);
            assert(before =~= Seq::<char>::empty());
            assert(out@ =~= q@);
        } else {
            assert(out@ =~= before + seq![' '] + q@);
        }
        i = i + 1;
    }
    assert(all.take(args.len() as int) =~= all);
    string_of(&out)
}


proof fn lemma_replace_absent(s: Seq<char>, pat: Seq<char>, to: Seq<char>)
    requires
        pat.len() > 0,
        forall|i: int| 0 <= i < s.len() ==> s[i] != pat[0],
    ensures
        replace_all(s, pat, to) == s,
    decreases s.len(),
{
    if s.len() >= pat.len() {
        assert(s.take(pat.len() as int)[0] != pat[0]);
        lemma_replace_absent(s.drop_first(), pat, to);
        assert(seq![s[0]] + s.drop_first() =~= s);
    }
}

/// A template word without `{` is passed on exactly as written.
pub proof fn law_plain_word_unchanged(
    t: Seq<char>,
    tty: Seq<char>,
    addr: Seq<char>,
    name: Seq<char>,
    host: Seq<char>,
)
    requires
        forall|i: int| 0 <= i < t.len() ==> t[i] != '{',
    ensures
        render_token(t, tty, addr, name, host) == t,
{
    reveal_strlit("{tty}");
    reveal_strlit("{addr}");
    reveal_strlit("{name}");
    reveal_strlit("{host}");
    lemma_replace_absent(t, "{tty}"@, tty);
    lemma_replace_absent(t, "{addr}"@, addr);
    lemma_replace_absent(t, "{name}"@, name);
    lemma_replace_absent(t, "{host}"@, host);
}

proof fn lemma_strip_prefixes_done(s: Seq<char>, p: Seq<char>)
    requires
        p.len() > 0,
    ensures
        !(strip_prefixes(s, p).len() >= p.len() && strip_prefixes(s, p).take(p.len() as int) == p),
        strip_prefixes(s, p).len() <= s.len(),
    decreases s.len(),
{
    if s.len() >= p.len() && s.take(p.len() as int) == p {
        lemma_strip_prefixes_done(s.skip(p.len() as int), p);
    }
}

/// The `{tty}` value never starts with `/dev/`.
pub proof fn law_tty_arg_has_no_dev_prefix(pty_slave_path: Seq<char>)
    ensures
        !(tty_arg(pty_slave_path).len() >= 5 && tty_arg(pty_slave_path).take(5) == "/dev/"@),
{
    reveal_strlit("/dev/");
    lemma_strip_prefixes_done(pty_slave_path, "/dev/"@);
}


/// Reducing a name to host characters works character by character: the
/// reduction of two pieces joined is the two reductions joined.
pub proof fn law_host_filter_concat(a: Seq<char>, b: Seq<char>)
    ensures
        host_filter(a + b) == host_filter(a) + host_filter(b),
    decreases b.len(),
{
    if b.len() == 0 {
        assert(a + b =~= a);
        assert(host_filter(a) + host_filter(b) =~= host_filter(a));
    } else {
        law_host_filter_concat(a, b.drop_last());
        assert((a + b).drop_last() =~= a + b.drop_last());
        assert((a + b).last() == b.last());
        let c = b.last();
        if is_host_char(c) {
            assert(host_filter(a) + host_filter(b.drop_last()).push(c) =~= (host_filter(a)
                + host_filter(b.drop_last())).push(c));
        } else if is_space(c) {
            assert(host_filter(a) + host_filter(b.drop_last()).push('-') =~= (host_filter(a)
                + host_filter(b.drop_last())).push('-'));
        }
    }
}

/// A host character is kept, white space becomes `-`, and anything else
/// is dropped.
pub proof fn law_host_filter_single(c: char)
    ensures
        is_host_char(c) ==> host_filter(seq![c]) == seq![c],
        !is_host_char(c) && is_space(c) ==> host_filter(seq![c]) == seq!['-'],
        !is_host_char(c) && !is_space(c) ==> host_filter(seq![c]) == Seq::<char>::empty(),
{
    assert(seq![c].drop_last() =~= Seq::<char>::empty());
    assert(host_filter(Seq::<char>::empty()) =~= Seq::<char>::empty());
    assert(seq![c].last() == c);
    assert(host_filter(seq![c].drop_last()) =~= Seq::<char>::empty());
    assert(Seq::<char>::empty().push(c) =~= seq![c]);
    assert(Seq::<char>::empty().push('-') =~= seq!['-']);
}

proof fn lemma_host_filter_keeps_host_names(name: Seq<char>)
    requires
        forall|i: int| 0 <= i < name.len() ==> is_host_char(#[trigger] name[i]),
    ensures
        host_filter(name) == name,
    decreases name.len(),
{
    if name.len() > 0 {
        lemma_host_filter_keeps_host_names(name.drop_last());
        assert(name.drop_last().push(name.last()) =~= name);
    }
}

/// A non-empty name made only of host characters (ASCII letters, digits,
/// `-`, `_`, `.`) is its own `{host}` value, whatever its length.
pub proof fn law_host_token_keeps_host_names(name: Seq<char>)
    requires
        name.len() > 0,
        forall|i: int| 0 <= i < name.len() ==> is_host_char(#[trigger] name[i]),
    ensures
        host_token(name) == name,
{
    lemma_host_filter_keeps_host_names(name);
}

} // verus!
