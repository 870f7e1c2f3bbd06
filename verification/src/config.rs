//! Settings: what they are, their defaults, and how an `.env` file is read.

use vstd::prelude::*;
use crate::server_service::{lemma_pieces_nonempty, pieces, split_chars};
use crate::text::{
    chars_of, find, find_text, is_whitespace, lemma_find_from, owned, parse_unsigned, skip_white,
    string_of, sub_chars, trim_start_chars, unsigned_text_value, white_space,
};

verus! {

/// The server's settings.
pub struct Config {
    pub db_path: String,
    pub port: u16,
    pub host: String,
    pub razorpay_key_id: String,
    pub razorpay_key_secret: String,
    pub openai_api_key: String,
}

/// A setting's text, or its default when it is not set.
pub open spec fn or_default_text(o: Option<Seq<char>>, dflt: Seq<char>) -> Seq<char> {
    match o {
        Some(t) => t,
        None => dflt,
    }
}

/// The port a setting names: its text read as a 16-bit unsigned number,
/// 8000 when it is unset or unreadable.
pub open spec fn port_of(o: Option<Seq<char>>) -> u16 {
    match o {
        Some(t) => match unsigned_text_value(t, 65535) {
            Some(v) => v as u16,
            None => 8000,
        },
        None => 8000,
    }
}

fn text_or(o: Option<String>, dflt: &str) -> (r: String)
    ensures
        r@ == or_default_text(
            match o {
                Some(s) => Some(s@),
                None => None,
            },
            dflt@,
        ),
{
    match o {
        Some(s) => s,
        None => owned(dflt),
    }
}

impl Config {
    /// The settings from the values of the environment variables DB_PATH,
    /// PORT, HOST, RAZORPAY_KEY_ID, RAZORPAY_KEY_SECRET and OPENAI_API_KEY
    /// (`None` where unset): the database defaults to "mandate_gate.db",
    /// the port to 8000, the host to "0.0.0.0", the keys to empty.
    pub fn from_env_values(
        db_path: Option<String>,
        port: Option<String>,
        host: Option<String>,
        razorpay_key_id: Option<String>,
        razorpay_key_secret: Option<String>,
        openai_api_key: Option<String>,
    ) -> (r: Config)
        ensures
            r.db_path@ == or_default_text(
                match db_path {
                    Some(s) => Some(s@),
                    None => None,
                },
                "mandate_gate.db"@,
            ),
            r.port == port_of(
                match port {
                    Some(s) => Some(s@),
                    None => None,
                },
            ),
            r.host@ == or_default_text(
                match host {
                    Some(s) => Some(s@),
                    None => None,
                },
                "0.0.0.0"@,
            ),
            r.razorpay_key_id@ == or_default_text(
                match razorpay_key_id {
                    Some(s) => Some(s@),
                    None => None,
                },
                seq![],
            ),
            r.razorpay_key_secret@ == or_default_text(
                match razorpay_key_secret {
                    Some(s) => Some(s@),
                    None => None,
                },
                seq![],
            ),
            r.openai_api_key@ == or_default_text(
                match openai_api_key {
                    Some(s) => Some(s@),
                    None => None,
                },
                seq![],
            ),
    {
        let p: u16 = match &port {
            Some(t) => {
                let tc = chars_of(t.as_str());
                match parse_unsigned(&tc, 65535) {
                    Some(v) => v as u16,
                    None => 8000,
                }
            },
            None => 8000,
        };
        proof {
            reveal_strlit("");
        }
        Config {
            db_path: text_or(db_path, "mandate_gate.db"),
            port: p,
            host: text_or(host, "0.0.0.0"),
            razorpay_key_id: text_or(razorpay_key_id, ""),
            razorpay_key_secret: text_or(razorpay_key_secret, ""),
            openai_api_key: text_or(openai_api_key, ""),
        }
    }
}

/// A text without its trailing whitespace.
pub open spec fn strip_white_back(s: Seq<char>) -> Seq<char>
    decreases s.len(),
{
    if s.len() > 0 && white_space(s.last()) {
        strip_white_back(s.drop_last())
    } else {
        s
    }
}

/// A text without leading or trailing whitespace (std's `str::trim`).
pub open spec fn trim_white(s: Seq<char>) -> Seq<char> {
    strip_white_back(skip_white(s))
}

fn trim_chars(s: &[char]) -> (r: Vec<char>)
    ensures
        r@ == trim_white(s@),
{
    let f = trim_start_chars(s);
    let mut j: usize = f.len();
    assert(f@.subrange(0, j as int) =~= f@);
    while j > 0 && is_whitespace(f[j - 1])
        invariant
            j <= f@.len(),
            trim_white(s@) == strip_white_back(f@.subrange(0, j as int)),
            f@ == skip_white(s@),
        decreases j,
    {
        assert(f@.subrange(0, j as int).drop_last() =~= f@.subrange(0, j - 1));
        j = j - 1;
    }
    sub_chars(&f, 0, j)
}

/// A line without one trailing carriage return.
pub open spec fn strip_cr(l: Seq<char>) -> Seq<char> {
    if l.len() > 0 && l.last() == '\r' {
        l.drop_last()
    } else {
        l
    }
}

/// The lines of a text (std's `str::lines`): split at line feeds, a final
/// line feed ending the last line rather than starting an empty one, each
/// line without a trailing carriage return.
pub open spec fn lines_of(s: Seq<char>) -> Seq<Seq<char>> {
    if s.len() == 0 {
        seq![]
    } else {
        let p = pieces(s, '\n');
        let q = if s.last() == '\n' {
            p.drop_last()
        } else {
            p
        };
        q.map_values(|l: Seq<char>| strip_cr(l))
    }
}

/// The setting a line of an `.env` file makes: for a line that is neither
/// blank nor a comment and holds an '=', the trimmed text before the first
/// '=' and the trimmed text after it.
pub open spec fn env_entry(line: Seq<char>) -> Seq<(Seq<char>, Seq<char>)> {
    let t = trim_white(line);
    if t.len() > 0 && t[0] != '#' {
        match find_text(t, seq!['=']) {
            Some(k) => seq![(trim_white(t.take(k)), trim_white(t.skip(k + 1)))],
            None => seq![],
        }
    } else {
        seq![]
    }
}

/// The settings a list of lines makes, in order.
pub open spec fn env_entries(ls: Seq<Seq<char>>) -> Seq<(Seq<char>, Seq<char>)>
    decreases ls.len(),
{
    if ls.len() == 0 {
        seq![]
    } else {
        env_entries(ls.drop_last()) + env_entry(ls.last())
    }
}

fn entry_of_line(line: &Vec<char>) -> (r: Option<(String, String)>)
    ensures
        match r {
            Some(kv) => env_entry(line@) == seq![(kv.0@, kv.1@)],
            None => env_entry(line@) == Seq::<(Seq<char>, Seq<char>)>::empty(),
        },
{
    let t = trim_chars(line);
    if t.len() == 0 || t[0] == '#' {
        return None;
    }
    let mut eq: Vec<char> = Vec::new();
    eq.push('=');
    assert(eq@ =~= seq!['=']);
    match find(&t, &eq) {
        Some(k) => {
            proof {
                lemma_find_from(t@, eq@, 0);
            }
            let total = t.len();
            assert(k + 1 <= t@.len());
            let key = sub_chars(&t, 0, k);
            let val = sub_chars(&t, k + 1, total);
            assert(key@ =~= t@.take(k as int));
            assert(val@ =~= t@.skip(k + 1));
            let kt = trim_chars(&key);
            let vt = trim_chars(&val);
            Some((string_of(&kt), string_of(&vt)))
        },
        None => None,
    }
}

/// The settings an `.env` file makes, in order of its lines: each line that
/// is neither blank nor a comment (starting with '#') and holds an '=' sets
/// the trimmed text before the first '=' to the trimmed text after it.
pub fn parse_env_file(content: &str) -> (r: Vec<(String, String)>)
    ensures
        r@.map_values(|kv: (String, String)| (kv.0@, kv.1@)) == env_entries(lines_of(content@)),
{
    let cs = chars_of(content);
    let mut out: Vec<(String, String)> = Vec::new();
    if cs.len() == 0 {
        assert(out@.map_values(|kv: (String, String)| (kv.0@, kv.1@)) =~= seq![]);
        return out;
    }
    let ps = split_chars(&cs, '\n');
    let ghost pv = ps@.map_values(|w: Vec<char>| w@);
    proof {
        lemma_pieces_nonempty(cs@, '\n', 0, seq![]);
    }
    assert(ps@.len() >= 1);
    let n: usize = if cs[cs.len() - 1] == '\n' {
        ps.len() - 1
    } else {
        ps.len()
    };
    let ghost q = if cs@.last() == '\n' {
        pv.drop_last()
    } else {
        pv
    };
    let ghost ls = q.map_values(|l: Seq<char>| strip_cr(l));
    assert(ls == lines_of(content@));
    assert(ls.len() == n);
    let mut i: usize = 0;
    while i < n
        invariant
            i <= n <= ps@.len(),
            pv == ps@.map_values(|w: Vec<char>| w@),
            ls.len() == n,
            forall|j: int| 0 <= j < n ==> ls[j] == strip_cr(#[trigger] pv[j]),
            out@.map_values(|kv: (String, String)| (kv.0@, kv.1@)) == env_entries(
                ls.take(i as int),
            ),
        decreases n - i,
    {
        let p = &ps[i];
        let plen = p.len();
        let line = if plen > 0 && p[plen - 1] == '\r' {
            sub_chars(p, 0, plen - 1)
        } else {
            sub_chars(p, 0, plen)
        };
        assert(p@ == pv[i as int]);
        assert(line@ =~= strip_cr(pv[i as int]));
        let ghost before = out@.map_values(|kv: (String, String)| (kv.0@, kv.1@));
        match entry_of_line(&line) {
            Some(kv) => {
                out.push(kv);
            },
            None => {},
        }
        assert(ls.take(i + 1).drop_last() =~= ls.take(i as int));
        assert(out@.map_values(|kv: (String, String)| (kv.0@, kv.1@)) =~= before + env_entry(
            ls[i as int],
        ));
        i = i + 1;
    }
    assert(ls.take(n as int) =~= ls);
    out
}

} // verus!
