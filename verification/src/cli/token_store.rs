//! The CLI's saved session: the file's text, reading it back, where it
//! lives, and which token a command uses. Reading the environment and the
//! file system is left to the caller.
use vstd::prelude::*;
use crate::text::{chars_of, string_of, concat, trim, trim_seq, trim_start, trim_start_seq, has_prefix, starts_with,
    slice, find, split_on, split_seq, occurs_at, contains_seq, lead_ws, trail_ws, is_ws, lemma_split_single,
    lemma_split_at_sep};
use crate::config::text;

verus! {

/// The text after `= "` up to the next quote, in `s` (leading whitespace
/// allowed before and after `=`).
pub open spec fn quoted_value(s: Seq<char>) -> Option<Seq<char>> {
    let a = trim_start_seq(s);
    if a.len() == 0 || a[0] != '=' {
        None
    } else {
        let b = trim_start_seq(a.subrange(1, a.len() as int));
        if b.len() == 0 || b[0] != '"' {
            None
        } else {
            let c = b.subrange(1, b.len() as int);
            if exists|i: int| 0 <= i < c.len() && c[i] == '"' {
                let i = choose|i: int| 0 <= i < c.len() && c[i] == '"' && forall|j: int| 0 <= j < i ==> c[j] != '"';
                Some(c.subrange(0, i))
            } else {
                None
            }
        }
    }
}

/// Parses `= "value"`, giving the value.
pub fn parse_quoted(s: &str) -> (r: Option<String>)
    ensures
        match r {
            Some(v) => quoted_value(s@) == Some(v@),
            None => quoted_value(s@) is None,
        },
{
    let a = trim_start(chars_of(s).as_slice());
    if a.len() == 0 || a[0] != '=' {
        return None;
    }
    let rest = slice(a.as_slice(), 1, a.len());
    let b = trim_start(rest.as_slice());
    if b.len() == 0 || b[0] != '"' {
        return None;
    }
    let c = slice(b.as_slice(), 1, b.len());
    let mut i: usize = 0;
    while i < c.len()
        invariant
            i <= c@.len(),
            a@ == trim_start_seq(s@),
            a@.len() > 0 && a@[0] == '=',
            b@ == trim_start_seq(a@.subrange(1, a@.len() as int)),
            b@.len() > 0 && b@[0] == '"',
            c@ == b@.subrange(1, b@.len() as int),
            forall|j: int| 0 <= j < i ==> c@[j] != '"',
        decreases c@.len() - i,
    {
        if c[i] == '"' {
            proof {
                let k = choose|k: int| 0 <= k < c@.len() && c@[k] == '"' && forall|j: int| 0 <= j < k ==> c@[j] != '"';
                if k < i {
                    assert(c@[k] != '"');
                } else if k > i {
                    assert(c@[i as int] != '"');
                }
            }
            return Some(string_of(slice(c.as_slice(), 0, i).as_slice()));
        }
        i = i + 1;
    }
    None
}

/// The first line of a session file.
pub open spec fn session_header() -> Seq<char> {
    "# xiraNET CLI session — auto-managed, do not edit by hand"@
}

/// A `key = "value"` line of a session file.
pub open spec fn session_line(key: Seq<char>, value: Seq<char>) -> Seq<char> {
    key + " = \""@ + value + "\""@
}

/// The text of a session file.
pub open spec fn session_text(token: Seq<char>, gateway: Seq<char>) -> Seq<char> {
    session_header() + "\n"@ + session_line("token"@, token) + "\n"@ + session_line("gateway"@, gateway) + "\n"@
}

fn line_text(key: &str, value: &str) -> (r: Vec<char>)
    ensures
        r@ == session_line(key@, value@),
{
    let a = concat(chars_of(key).as_slice(), chars_of(" = \"").as_slice());
    let b = concat(a.as_slice(), chars_of(value).as_slice());
    concat(b.as_slice(), chars_of("\"").as_slice())
}

/// The text written to the session file.
pub fn session_content(token: &str, gateway: &str) -> (r: String)
    ensures
        r@ == session_text(token@, gateway@),
{
    let nl = chars_of("\n");
    let a = concat(chars_of("# xiraNET CLI session — auto-managed, do not edit by hand").as_slice(), nl.as_slice());
    let b = concat(a.as_slice(), line_text("token", token).as_slice());
    let c = concat(b.as_slice(), nl.as_slice());
    let d = concat(c.as_slice(), line_text("gateway", gateway).as_slice());
    let e = concat(d.as_slice(), nl.as_slice());
    string_of(e.as_slice())
}

/// What the lines of a session file say, read in order: `(token, gateway)`,
/// each the value of the last line that names it. Comment and blank lines
/// are skipped.
pub open spec fn read_lines(lines: Seq<Seq<char>>) -> (Option<Seq<char>>, Option<Seq<char>>)
    decreases lines.len(),
{
    if lines.len() == 0 {
        (None, None)
    } else {
        let (t, g) = read_lines(lines.drop_last());
        let l = trim_seq(lines.last());
        if l.len() == 0 || l[0] == '#' {
            (t, g)
        } else if has_prefix(l, "token"@) {
            (quoted_value(l.subrange(5, l.len() as int)), g)
        } else if has_prefix(l, "gateway"@) {
            (t, quoted_value(l.subrange(7, l.len() as int)))
        } else {
            (t, g)
        }
    }
}

/// The token and gateway of a session file's text, when both are there.
pub open spec fn session_of(content: Seq<char>) -> Option<(Seq<char>, Seq<char>)> {
    let (t, g) = read_lines(split_seq(content, '\n'));
    if t is Some && g is Some {
        Some((t->0, g->0))
    } else {
        None
    }
}

/// Reads a session file's text.
pub fn parse_session(content: &str) -> (r: Option<(String, String)>)
    ensures
        match r {
            Some(p) => session_of(content@) == Some((p.0@, p.1@)),
            None => session_of(content@) is None,
        },
{
    proof {
        reveal_strlit("token");
        reveal_strlit("gateway");
    }
    let lines = split_on(chars_of(content).as_slice(), '\n');
    let ghost ls = lines@.map_values(|v: Vec<char>| v@);
    let mut token: Option<String> = None;
    let mut gateway: Option<String> = None;
    let mut i: usize = 0;
    while i < lines.len()
        invariant
            i <= lines@.len(),
            ls == lines@.map_values(|v: Vec<char>| v@),
            ({
                let (t, g) = read_lines(ls.subrange(0, i as int));
                &&& t == match token { Some(x) => Some(x@), None => None }
                &&& g == match gateway { Some(x) => Some(x@), None => None }
            }),
        decreases lines@.len() - i,
    {
        proof {
            reveal_strlit("token");
            reveal_strlit("gateway");
            assert(ls.subrange(0, i + 1).drop_last() =~= ls.subrange(0, i as int));
            assert(ls.subrange(0, i + 1).last() == lines@[i as int]@);
        }
        let l = trim(lines[i].as_slice());
        if l.len() == 0 || l[0] == '#' {
        } else if starts_with(l.as_slice(), chars_of("token").as_slice()) {
            let rest = slice(l.as_slice(), 5, l.len());
            token = parse_quoted(string_of(rest.as_slice()).as_str());
        } else if starts_with(l.as_slice(), chars_of("gateway").as_slice()) {
            let rest = slice(l.as_slice(), 7, l.len());
            gateway = parse_quoted(string_of(rest.as_slice()).as_str());
        }
        i = i + 1;
    }
    proof {
        assert(ls.subrange(0, ls.len() as int) =~= ls);
    }
    match (token, gateway) {
        (Some(t), Some(g)) => Some((t, g)),
        _ => None,
    }
}

proof fn lemma_quoted_after_key(v: Seq<char>)
    requires
        !v.contains('"'),
    ensures
        quoted_value(seq![' ', '=', ' ', '"'] + v + seq!['"']) == Some(v),
{
    let s = seq![' ', '=', ' ', '"'] + v + seq!['"'];
    assert(s[0] == ' ');
    assert(s.drop_first()[0] == '=');
    assert(lead_ws(s.drop_first()) == 0);
    assert(lead_ws(s) == 1);
    let a = trim_start_seq(s);
    assert(a =~= seq!['=', ' ', '"'] + v + seq!['"']);
    let r = a.subrange(1, a.len() as int);
    assert(r =~= seq![' ', '"'] + v + seq!['"']);
    assert(r[0] == ' ');
    assert(r.drop_first()[0] == '"');
    assert(lead_ws(r.drop_first()) == 0);
    assert(lead_ws(r) == 1);
    let b = trim_start_seq(r);
    assert(b =~= seq!['"'] + v + seq!['"']);
    let c = b.subrange(1, b.len() as int);
    assert(c =~= v + seq!['"']);
    assert(c[v.len() as int] == '"');
    assert forall|j: int| 0 <= j < v.len() implies c[j] != '"' by {
        assert(c[j] == v[j]);
    }
    let i = choose|i: int| 0 <= i < c.len() && c[i] == '"' && forall|j: int| 0 <= j < i ==> c[j] != '"';
    if i < v.len() {
        assert(c[i] == v[i]);
    } else if i > v.len() {
        assert(c[v.len() as int] != '"');
    }
    assert(c.subrange(0, v.len() as int) =~= v);
}

proof fn lemma_trim_plain(l: Seq<char>)
    requires
        l.len() > 0,
        !is_ws(l[0]),
        !is_ws(l.last()),
    ensures
        trim_seq(l) == l,
{
    assert(lead_ws(l) == 0);
    assert(trim_start_seq(l) =~= l);
    assert(trail_ws(l) == 0);
    assert(l.subrange(0, l.len() as int) =~= l);
}

proof fn lemma_header_line()
    ensures
        session_header().len() > 0,
        session_header()[0] == '#',
        !is_ws(session_header().last()),
        !session_header().contains('\n'),
{
    reveal_strlit("# xiraNET CLI session — auto-managed, do not edit by hand");
    let h = session_header();
    assert forall|i: int| 0 <= i < h.len() implies h[i] != '\n' by {}
}

proof fn lemma_value_line(key: Seq<char>, value: Seq<char>)
    requires
        key.len() > 0,
        !is_ws(key[0]),
        !key.contains('\n'),
        !value.contains('\n'),
    ensures
        session_line(key, value) == key + (seq![' ', '=', ' ', '"'] + value + seq!['"']),
        !session_line(key, value).contains('\n'),
        trim_seq(session_line(key, value)) == session_line(key, value),
        session_line(key, value).subrange(0, key.len() as int) == key,
        session_line(key, value).subrange(key.len() as int, session_line(key, value).len() as int) == seq![' ', '=', ' ', '"']
            + value + seq!['"'],
{
    reveal_strlit(" = \"");
    reveal_strlit("\"");
    let l = session_line(key, value);
    let k = key.len() as int;
    assert(l =~= key + (seq![' ', '=', ' ', '"'] + value + seq!['"']));
    assert forall|i: int| 0 <= i < l.len() implies l[i] != '\n' by {
        if i < k {
            assert(l[i] == key[i]);
        } else if k + 4 <= i < k + 4 + value.len() {
            assert(l[i] == value[i - k - 4]);
        }
    }
    assert(l[0] == key[0]);
    lemma_trim_plain(l);
    assert(l.subrange(0, k) =~= key);
    assert(l.subrange(k, l.len() as int) =~= seq![' ', '=', ' ', '"'] + value + seq!['"']);
}

proof fn lemma_session_lines(token: Seq<char>, gateway: Seq<char>)
    requires
        !token.contains('\n'),
        !gateway.contains('\n'),
    ensures
        split_seq(session_text(token, gateway), '\n') == seq![
            session_header(),
            session_line("token"@, token),
            session_line("gateway"@, gateway),
            Seq::<char>::empty(),
        ],
{
    reveal_strlit("\n");
    reveal_strlit("token");
    reveal_strlit("gateway");
    let h = session_header();
    let l1 = session_line("token"@, token);
    let l2 = session_line("gateway"@, gateway);
    let e = Seq::<char>::empty();
    lemma_header_line();
    assert(!"token"@.contains('\n')) by {
        assert forall|i: int| 0 <= i < 5 implies "token"@[i] != '\n' by {}
    }
    assert(!"gateway"@.contains('\n')) by {
        assert forall|i: int| 0 <= i < 7 implies "gateway"@[i] != '\n' by {}
    }
    lemma_value_line("token"@, token);
    lemma_value_line("gateway"@, gateway);
    assert(session_text(token, gateway) =~= h + seq!['\n'] + (l1 + seq!['\n'] + (l2 + seq!['\n'] + e)));
    lemma_split_at_sep(l2, e, '\n');
    lemma_split_at_sep(l1, l2 + seq!['\n'] + e, '\n');
    lemma_split_at_sep(h, l1 + seq!['\n'] + (l2 + seq!['\n'] + e), '\n');
    lemma_split_single(h, '\n');
    lemma_split_single(l1, '\n');
    lemma_split_single(l2, '\n');
    assert(split_seq(session_text(token, gateway), '\n') =~= seq![h, l1, l2, e]);
}

/// A session written by `session_content` reads back as the same token and
/// gateway, for values that hold no quote and no line break.
#[verifier::rlimit(50)]
pub proof fn law_session_roundtrip(token: Seq<char>, gateway: Seq<char>)
    requires
        !token.contains('"'),
        !token.contains('\n'),
        !gateway.contains('"'),
        !gateway.contains('\n'),
    ensures
        session_of(session_text(token, gateway)) == Some((token, gateway)),
{
    reveal_strlit("token");
    reveal_strlit("gateway");
    let h = session_header();
    let l1 = session_line("token"@, token);
    let l2 = session_line("gateway"@, gateway);
    let e = Seq::<char>::empty();
    lemma_header_line();
    lemma_session_lines(token, gateway);
    lemma_value_line("token"@, token);
    lemma_value_line("gateway"@, gateway);
    lemma_trim_plain(h);
    lemma_quoted_after_key(token);
    lemma_quoted_after_key(gateway);
    let lines = seq![h, l1, l2, e];
    assert(lines.drop_last() =~= seq![h, l1, l2]);
    assert(seq![h, l1, l2].drop_last() =~= seq![h, l1]);
    assert(seq![h, l1].drop_last() =~= seq![h]);
    assert(seq![h].drop_last() =~= Seq::<Seq<char>>::empty());
    assert(trim_seq(e) =~= e);
    assert(!has_prefix(l2, "token"@)) by {
        assert(l2.subrange(0, 5)[0] != "token"@[0]);
    }
    assert(read_lines(Seq::<Seq<char>>::empty()) == (None::<Seq<char>>, None::<Seq<char>>));
    assert(seq![h].last() == h);
    assert(trim_seq(h)[0] == '#');
    assert(read_lines(seq![h]) == (None::<Seq<char>>, None::<Seq<char>>));
    assert(seq![h, l1].last() == l1);
    assert(read_lines(seq![h, l1]) == (Some(token), None::<Seq<char>>));
    assert(seq![h, l1, l2].last() == l2);
    assert(read_lines(seq![h, l1, l2]) == (Some(token), Some(gateway)));
    assert(lines.last() == e);
    assert(read_lines(lines) == (Some(token), Some(gateway)));
}

/// `base` joined with a relative part as `PathBuf::join` does it.
pub open spec fn path_join(base: Seq<char>, part: Seq<char>) -> Seq<char> {
    if base.len() == 0 {
        part
    } else if base.last() == '/' {
        base + part
    } else {
        base + "/"@ + part
    }
}

fn join_path(base: &[char], part: &str) -> (r: Vec<char>)
    ensures
        r@ == path_join(base@, part@),
{
    let p = chars_of(part);
    if base.len() == 0 {
        p
    } else if base[base.len() - 1] == '/' {
        concat(base, p.as_slice())
    } else {
        let a = concat(base, chars_of("/").as_slice());
        concat(a.as_slice(), p.as_slice())
    }
}

/// Where the session file lives: `$XDG_CONFIG_HOME/xira/session` when that
/// variable is set and not empty, else `$HOME/.config/xira/session`.
pub open spec fn session_path(xdg: Option<Seq<char>>, home: Option<Seq<char>>) -> Option<Seq<char>> {
    match xdg {
        Some(x) if x.len() > 0 => Some(path_join(path_join(x, "xira"@), "session"@)),
        _ => match home {
            Some(h) => Some(path_join(path_join(path_join(h, ".config"@), "xira"@), "session"@)),
            None => None,
        },
    }
}

/// The session file's path, from the values of `XDG_CONFIG_HOME` and `HOME`.
pub fn session_file(xdg_config_home: Option<&str>, home: Option<&str>) -> (r: Option<String>)
    ensures
        match r {
            Some(p) => session_path(
                match xdg_config_home { Some(x) => Some(x@), None => None },
                match home { Some(h) => Some(h@), None => None },
            ) == Some(p@),
            None => session_path(
                match xdg_config_home { Some(x) => Some(x@), None => None },
                match home { Some(h) => Some(h@), None => None },
            ) is None,
        },
{
    match xdg_config_home {
        Some(x) => {
            let xc = chars_of(x);
            if xc.len() > 0 {
                let a = join_path(xc.as_slice(), "xira");
                let b = join_path(a.as_slice(), "session");
                return Some(string_of(b.as_slice()));
            }
        },
        None => {},
    }
    match home {
        Some(h) => {
            let a = join_path(chars_of(h).as_slice(), ".config");
            let b = join_path(a.as_slice(), "xira");
            let c = join_path(b.as_slice(), "session");
            Some(string_of(c.as_slice()))
        },
        None => None,
    }
}

/// The session file's path for messages, `<unknown>` when there is none.
pub fn path_display(xdg_config_home: Option<&str>, home: Option<&str>) -> (r: String)
    ensures
        match session_path(
            match xdg_config_home { Some(x) => Some(x@), None => None },
            match home { Some(h) => Some(h@), None => None },
        ) {
            Some(p) => r@ == p,
            None => r@ == "<unknown>"@,
        },
{
    match session_file(xdg_config_home, home) {
        Some(p) => p,
        None => text("<unknown>"),
    }
}

/// A variable's value when it is set and not empty.
pub open spec fn nonempty_text(o: Option<&str>) -> Option<Seq<char>> {
    match o {
        Some(e) => if e@.len() > 0 {
            Some(e@)
        } else {
            None
        },
        None => None,
    }
}

/// The token a command uses: the one given, else a non-empty
/// `XIRA_SESSION_TOKEN`, else the saved session (with its gateway); without
/// any, an error that names where `login` saves it.
pub fn resolve_token(provided: &str, env_token: Option<&str>, saved: Option<(String, String)>, path: &str) -> (r: Result<
    (String, Option<String>),
    String,
>)
    ensures
        provided@.len() > 0 ==> (r matches Ok(p) && p.0@ == provided@ && p.1 is None),
        provided@.len() == 0 && nonempty_text(env_token) is Some ==> (r matches Ok(p) && p.0@ == nonempty_text(env_token)->0
            && p.1 is None),
        provided@.len() == 0 && nonempty_text(env_token) is None ==> match saved {
            Some(s) => r matches Ok(p) && p.0 == s.0 && p.1 == Some(s.1),
            None => r matches Err(m) && m@ == "no session token — try: `xira admin login <email> <password>` (will save to "@ + path@ + ")"@,
        },
{
    let pc = chars_of(provided);
    if pc.len() > 0 {
        return Ok((string_of(pc.as_slice()), None));
    }
    match env_token {
        Some(e) => {
            let ec = chars_of(e);
            if ec.len() > 0 {
                return Ok((string_of(ec.as_slice()), None));
            }
        },
        None => {},
    }
    match saved {
        Some((t, g)) => Ok((t, Some(g))),
        None => {
            let a = concat(
                chars_of("no session token — try: `xira admin login <email> <password>` (will save to ").as_slice(),
                chars_of(path).as_slice(),
            );
            let b = concat(a.as_slice(), chars_of(")").as_slice());
            Err(string_of(b.as_slice()))
        },
    }
}

} // verus!
