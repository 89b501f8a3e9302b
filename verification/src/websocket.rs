//! WebSocket session setup: the query string of the upgrade request and the
//! session options it carries.
use vstd::prelude::*;
use vstd::hash_map::StringHashMap;
use crate::config::{NeuronMode, neuron_mode_named};
use crate::text::{
    chars_of, find, find_from_exec, lemma_find_from_spec, split_char, split_char_exec,
    string_from_chars, string_views, views, str_is,
};

verus! {

/// The value of an ASCII hexadecimal digit.
pub open spec fn hex_value(c: char) -> Option<u32> {
    if '0' <= c && c <= '9' {
        Some((c as u32 - 48) as u32)
    } else if 'a' <= c && c <= 'f' {
        Some((c as u32 - 87) as u32)
    } else if 'A' <= c && c <= 'F' {
        Some((c as u32 - 55) as u32)
    } else {
        None
    }
}

fn hex_digit(c: char) -> (r: Option<u32>)
    ensures
        r == hex_value(c),
{
    let u = c as u32;
    if '0' <= c && c <= '9' {
        Some(u - 48)
    } else if 'a' <= c && c <= 'f' {
        Some(u - 87)
    } else if 'A' <= c && c <= 'F' {
        Some(u - 55)
    } else {
        None
    }
}

/// URL-decoding of `s`: `+` is a space; `%` takes the next two chars (as
/// many as there are) and, when both are hex digits, stands for the char
/// with that code (0..=255); any other char stands for itself.
pub open spec fn url_decoded(s: Seq<char>) -> Seq<char>
    decreases s.len(),
{
    if s.len() == 0 {
        Seq::empty()
    } else if s[0] == '+' {
        seq![' '] + url_decoded(s.drop_first())
    } else if s[0] == '%' {
        let k = if s.len() >= 3 {
            2int
        } else {
            s.len() - 1
        };
        let decoded = if s.len() >= 3 && hex_value(s[1]) is Some && hex_value(s[2]) is Some {
            seq![((hex_value(s[1])->0 * 16 + hex_value(s[2])->0) as u32) as char]
        } else {
            Seq::empty()
        };
        decoded + url_decoded(s.skip(1 + k))
    } else {
        seq![s[0]] + url_decoded(s.drop_first())
    }
}

fn url_decode_chars(s: &[char]) -> (r: Vec<char>)
    ensures
        r@ == url_decoded(s@),
{
    let mut out: Vec<char> = Vec::new();
    let mut i: usize = 0;
    assert(s@.skip(0) =~= s@);
    while i < s.len()
        invariant
            i <= s@.len(),
            out@ + url_decoded(s@.skip(i as int)) == url_decoded(s@),
        decreases s.len() - i,
    {
        let ghost t = s@.skip(i as int);
        let ghost before = out@;
        assert(t[0] == s@[i as int]);
        let c = s[i];
        if c == '+' {
            out.push(' ');
            assert(t.drop_first() =~= s@.skip(i + 1));
            i += 1;
        } else if c == '%' {
            let rest = s.len() - i;
            if rest >= 3 {
                assert(t[1] == s@[i + 1] && t[2] == s@[i + 2]);
                match (hex_digit(s[i + 1]), hex_digit(s[i + 2])) {
                    (Some(h1), Some(h2)) => {
                        let v = h1 * 16 + h2;
                        out.push((v as u8) as char);
                        assert(((v as u8) as char) == (v as u32) as char);
                    },
                    _ => {},
                }
                assert(t.skip(3) =~= s@.skip(i + 3));
                i += 3;
            } else {
                assert(t.skip(1 + (t.len() - 1)) =~= s@.skip(s@.len() as int));
                i = s.len();
            }
        } else {
            out.push(c);
            assert(t.drop_first() =~= s@.skip(i + 1));
            i += 1;
        }
        assert(out@ + url_decoded(s@.skip(i as int)) =~= before + url_decoded(t));
    }
    assert(s@.skip(i as int) =~= Seq::<char>::empty());
    assert(out@ + Seq::<char>::empty() =~= out@);
    out
}

/// Decodes URL escapes (`+` and `%XX`).
pub fn url_decode(s: &str) -> (r: String)
    ensures
        r@ == url_decoded(s@),
{
    let cs = chars_of(s);
    let v = url_decode_chars(cs.as_slice());
    string_from_chars(v.as_slice())
}

/// The query string of a request path: what follows the first `?`.
pub open spec fn query_string(path: Seq<char>) -> Seq<char> {
    match find(path, seq!['?']) {
        Some(i) => path.skip(i + 1),
        None => Seq::empty(),
    }
}

/// A `key=value` pair split at its first `=` (no `=`: an empty value).
pub open spec fn pair_kv(pair: Seq<char>) -> (Seq<char>, Seq<char>) {
    match find(pair, seq!['=']) {
        Some(i) => (pair.take(i), pair.skip(i + 1)),
        None => (pair, Seq::empty()),
    }
}

/// The parameters of the pairs `parts`: each decoded key maps to its decoded
/// values in order; empty pairs are skipped.
pub open spec fn query_pairs(parts: Seq<Seq<char>>) -> Map<Seq<char>, Seq<Seq<char>>>
    decreases parts.len(),
{
    if parts.len() == 0 {
        Map::empty()
    } else {
        let m = query_pairs(parts.drop_last());
        let p = parts.last();
        if p.len() == 0 {
            m
        } else {
            let key = url_decoded(pair_kv(p).0);
            let val = url_decoded(pair_kv(p).1);
            m.insert(
                key,
                (if m.contains_key(key) {
                    m[key]
                } else {
                    seq![]
                }).push(val),
            )
        }
    }
}

/// The parameters of the query string of `path`.
pub open spec fn query_params(path: Seq<char>) -> Map<Seq<char>, Seq<Seq<char>>> {
    query_pairs(split_char(query_string(path), '&'))
}

/// A parameter map by the views of its values.
pub open spec fn params_view(m: Map<Seq<char>, Vec<String>>) -> Map<Seq<char>, Seq<Seq<char>>> {
    m.map_values(|v: Vec<String>| string_views(v@))
}

fn copy_strings(v: &Vec<String>) -> (r: Vec<String>)
    ensures
        string_views(r@) == string_views(v@),
{
    let mut r: Vec<String> = Vec::new();
    let mut i: usize = 0;
    while i < v.len()
        invariant
            i <= v@.len(),
            string_views(r@) == string_views(v@).take(i as int),
        decreases v.len() - i,
    {
        let s = String::from_str(v[i].as_str());
        proof {
            assert(string_views(r@.push(s)) =~= string_views(r@).push(s@));
            assert(string_views(v@).take(i + 1) =~= string_views(v@).take(i as int).push(v@[i as int]@));
        }
        r.push(s);
        i += 1;
    }
    assert(string_views(v@).take(v@.len() as int) =~= string_views(v@));
    r
}

/// Parses the query string of a request path into its parameters; a key
/// given several times keeps all its values in order.
pub fn parse_query(path: &str) -> (m: StringHashMap<Vec<String>>)
    ensures
        params_view(m@) == query_params(path@),
{
    let cs = chars_of(path);
    let q = vec!['?'];
    assert(q@ == seq!['?']);
    let qs: Vec<char> = match find_from_exec(cs.as_slice(), q.as_slice(), 0) {
        Some(i) => {
            let n = cs.len();
            assert(i + 1 <= n);
            crate::text::slice_to_vec(cs.as_slice(), i + 1, n)
        },
        None => Vec::new(),
    };
    assert(qs@ == query_string(path@));
    let parts = split_char_exec(qs.as_slice(), '&');
    let mut m: StringHashMap<Vec<String>> = StringHashMap::new();
    assert(params_view(m@) =~= Map::<Seq<char>, Seq<Seq<char>>>::empty());
    let eq = vec!['='];
    assert(eq@ == seq!['=']);
    let mut i: usize = 0;
    while i < parts.len()
        invariant
            i <= parts@.len(),
            eq@ == seq!['='],
            views(parts@) == split_char(query_string(path@), '&'),
            params_view(m@) == query_pairs(views(parts@).take(i as int)),
        decreases parts.len() - i,
    {
        let ghost pre = views(parts@).take(i + 1);
        assert(pre.drop_last() =~= views(parts@).take(i as int));
        assert(pre.last() == parts@[i as int]@);
        let pair = parts[i].as_slice();
        if pair.len() > 0 {
            let (k, v) = match find_from_exec(pair, eq.as_slice(), 0) {
                Some(e) => {
                    let n = pair.len();
                    assert(e + 1 <= n);
                    assert(pair@.subrange(0, e as int) =~= pair@.take(e as int));
                    assert(pair@.subrange(e + 1, n as int) =~= pair@.skip(e + 1));
                    (&pair[0..e], &pair[e + 1..n])
                },
                None => {
                    let n = pair.len();
                    assert(pair@.subrange(0, n as int) =~= pair@);
                    (&pair[0..n], &pair[n..n])
                },
            };
            assert(k@ == pair_kv(pair@).0);
            assert(v@ =~= pair_kv(pair@).1);
            let key = string_from_chars(url_decode_chars(k).as_slice());
            let val = string_from_chars(url_decode_chars(v).as_slice());
            let ghost sm = query_pairs(pre.drop_last());
            let mut vals: Vec<String> = match m.get(key.as_str()) {
                Some(old) => {
                    assert(params_view(m@)[key@] == string_views(old@));
                    copy_strings(old)
                },
                None => {
                    assert(!params_view(m@).contains_key(key@));
                    Vec::new()
                },
            };
            let ghost before = string_views(vals@);
            assert(before =~= if sm.contains_key(key@) {
                sm[key@]
            } else {
                seq![]
            });
            vals.push(val);
            proof {
                assert(string_views(vals@) =~= before.push(val@));
            }
            let ghost mm = m@;
            m.insert(key, vals);
            proof {
                assert(params_view(m@) =~= params_view(mm).insert(key@, string_views(vals@)));
                assert(key@ == url_decoded(pair_kv(pre.last()).0));
                assert(val@ == url_decoded(pair_kv(pre.last()).1));
            }
        } else {
            assert(query_pairs(pre) =~= query_pairs(pre.drop_last()));
        }
        i += 1;
    }
    assert(views(parts@).take(parts@.len() as int) =~= views(parts@));
    m
}

/// Options of a WebSocket session, taken from its query string.
pub struct SessionConfig {
    pub model: Option<String>,
    pub neuron_mode: Option<NeuronMode>,
    pub preset: Option<String>,
    pub no_neurons: Vec<String>,
    pub thinking: bool,
    pub yes: bool,
    /// Also show thinking on the server's stderr.
    pub thinking_srv: bool,
    /// The client is the terminal UI itself.
    pub tui_client: bool,
    pub username: String,
}

/// The first value of parameter `k`.
pub open spec fn first_param(q: Map<Seq<char>, Seq<Seq<char>>>, k: Seq<char>) -> Option<Seq<char>> {
    if q.contains_key(k) && q[k].len() > 0 {
        Some(q[k][0])
    } else {
        None
    }
}

/// A flag parameter: its first value is `true` or `1`.
pub open spec fn flag_param(q: Map<Seq<char>, Seq<Seq<char>>>, k: Seq<char>) -> bool {
    match first_param(q, k) {
        Some(v) => v == "true"@ || v == "1"@,
        None => false,
    }
}

pub open spec fn opt_view(o: Option<String>) -> Option<Seq<char>> {
    match o {
        Some(s) => Some(s@),
        None => None,
    }
}

/// All values of parameter `k`, none when it is absent.
pub open spec fn param_values(q: Map<Seq<char>, Seq<Seq<char>>>, k: Seq<char>) -> Seq<Seq<char>> {
    if q.contains_key(k) {
        q[k]
    } else {
        seq![]
    }
}

fn all_values(q: &StringHashMap<Vec<String>>, k: &str) -> (r: Vec<String>)
    ensures
        string_views(r@) == param_values(params_view(q@), k@),
{
    match q.get(k) {
        Some(v) => copy_strings(v),
        None => Vec::new(),
    }
}

fn first_value(q: &StringHashMap<Vec<String>>, k: &str) -> (r: Option<String>)
    ensures
        opt_view(r) == first_param(params_view(q@), k@),
{
    match q.get(k) {
        Some(v) => if v.len() > 0 {
            Some(String::from_str(v[0].as_str()))
        } else {
            None
        },
        None => None,
    }
}

fn flag_value(q: &StringHashMap<Vec<String>>, k: &str) -> (b: bool)
    ensures
        b == flag_param(params_view(q@), k@),
{
    match first_value(q, k) {
        Some(v) => crate::text::str_eq(v.as_str(), "true") || crate::text::str_eq(v.as_str(), "1"),
        None => false,
    }
}

impl SessionConfig {
    /// Reads the session options from the query parameters; `username`
    /// falls back to `default_username` (the server's user). The neurons to
    /// switch off are listed under `no_neurons` (the name the HTTP body
    /// uses) or `no_neuron`.
    pub fn from_query(q: &StringHashMap<Vec<String>>, thinking_srv: bool, default_username: &str) -> (c:
        Self)
        ensures
            ({
                let p = params_view(q@);
                &&& opt_view(c.model) == first_param(p, "model"@)
                &&& c.neuron_mode == match first_param(p, "neuron_mode"@) {
                    Some(v) => Some(neuron_mode_named(v)),
                    None => None,
                }
                &&& opt_view(c.preset) == first_param(p, "preset"@)
                &&& string_views(c.no_neurons@) == param_values(p, "no_neuron"@) + param_values(p, "no_neurons"@)
                &&& c.thinking == flag_param(p, "thinking"@)
                &&& c.yes == flag_param(p, "yes"@)
                &&& c.thinking_srv == thinking_srv
                &&& c.tui_client == (first_param(p, "client"@) == Some("tui"@))
                &&& c.username@ == match first_param(p, "username"@) {
                    Some(u) => u,
                    None => default_username@,
                }
            }),
    {
        let model = first_value(q, "model");
        let neuron_mode = match first_value(q, "neuron_mode") {
            Some(v) => Some(NeuronMode::from_str(v.as_str())),
            None => None,
        };
        let preset = first_value(q, "preset");
        let mut no_neurons = all_values(q, "no_neuron");
        let mut more = all_values(q, "no_neurons");
        proof {
            assert(string_views(no_neurons@ + more@) =~= string_views(no_neurons@) + string_views(more@));
        }
        no_neurons.append(&mut more);
        let thinking = flag_value(q, "thinking");
        let yes = flag_value(q, "yes");
        let tui_client = match first_value(q, "client") {
            Some(v) => crate::text::str_eq(v.as_str(), "tui"),
            None => false,
        };
        let username = match first_value(q, "username") {
            Some(u) => u,
            None => String::from_str(default_username),
        };
        SessionConfig {
            model,
            neuron_mode,
            preset,
            no_neurons,
            thinking,
            yes,
            thinking_srv,
            tui_client,
            username,
        }
    }
}

} // verus!
