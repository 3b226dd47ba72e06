//! Gateway protocol configuration: what a client asks for in the query string
//! of its WebSocket handshake.

use vstd::prelude::*;
use crate::text::{same_text, views, opt_view};

verus! {

/// Splits `s` at every occurrence of `c` (as `str::split` with a `char`).
pub open spec fn split_on(s: Seq<char>, c: char) -> Seq<Seq<char>>
    decreases s.len(),
{
    if s.len() == 0 {
        seq![Seq::<char>::empty()]
    } else {
        let rest = split_on(s.drop_first(), c);
        if s[0] == c {
            seq![Seq::<char>::empty()] + rest
        } else {
            rest.update(0, seq![s[0]] + rest[0])
        }
    }
}

/// The key-value pairs of a query string: each `&`-separated part that holds
/// a `=` gives the text before its first `=` and the text between its first
/// and second `=`; parts without `=` are skipped.
pub open spec fn query_pairs(q: Seq<char>) -> Seq<(Seq<char>, Seq<char>)> {
    split_on(q, '&').filter(|p: Seq<char>| split_on(p, '=').len() >= 2).map_values(
        |p: Seq<char>| (split_on(p, '=')[0], split_on(p, '=')[1]),
    )
}

/// Parses a query string into key-value pairs (`querystring::querify`).
#[verifier::external_body]
fn query_params(query: &str) -> (r: Vec<(String, String)>)
    ensures
        r@.len() == query_pairs(query@).len(),
        forall|i: int|
            0 <= i < r@.len() ==> (#[trigger] r@[i]).0@ == query_pairs(query@)[i].0 && r@[i].1@
                == query_pairs(query@)[i].1,
{
    querystring::querify(query).into_iter().map(|(k, v)| (k.to_string(), v.to_string())).collect()
}

/// Capture groups of the ready-field pattern `^(\w+)(?:\[(\S+)\])?$` on a
/// value: group 1 (the field) and group 2 (the subkey in brackets, when
/// present), or nothing when the value does not match.
pub uninterp spec fn ready_field_captures(value: Seq<char>) -> Option<(Seq<char>, Option<Seq<char>>)>;

/// Whether `c` is an ASCII letter, digit or underscore (each a word
/// character of the pattern's `\w`).
pub open spec fn is_ascii_word_char(c: char) -> bool {
    ('a' <= c && c <= 'z') || ('A' <= c && c <= 'Z') || ('0' <= c && c <= '9') || c == '_'
}

/// Whether `c` is a printable ASCII character other than space (each a
/// non-whitespace character of the pattern's `\S`).
pub open spec fn is_ascii_graphic(c: char) -> bool {
    '!' <= c && c <= '~'
}

/// Whether `s` is a non-empty run of ASCII word characters.
pub open spec fn is_ascii_word(s: Seq<char>) -> bool {
    s.len() > 0 && forall|i: int| 0 <= i < s.len() ==> is_ascii_word_char(#[trigger] s[i])
}

/// Whether `s` is a non-empty run of printable ASCII characters other than
/// space.
pub open spec fn is_ascii_graphic_text(s: Seq<char>) -> bool {
    s.len() > 0 && forall|i: int| 0 <= i < s.len() ==> is_ascii_graphic(#[trigger] s[i])
}

/// `key[sub]`.
pub open spec fn bracketed(key: Seq<char>, sub: Seq<char>) -> Seq<char> {
    key + seq!['['] + sub + seq![']']
}

/// The index of the first `[` in `s`, or its length when it holds none.
pub open spec fn first_bracket(s: Seq<char>) -> int
    decreases s.len(),
{
    if s.len() == 0 {
        0
    } else if s[0] == '[' {
        0
    } else {
        1 + first_bracket(s.drop_first())
    }
}

/// The text before the first `[`.
pub open spec fn key_part(s: Seq<char>) -> Seq<char> {
    s.take(first_bracket(s))
}

/// The text between the first `[` and the final character.
pub open spec fn sub_part(s: Seq<char>) -> Seq<char> {
    s.subrange(first_bracket(s) + 1, s.len() - 1)
}

/// Whether `s` is `key[sub]` with `key` a non-empty run of ASCII word
/// characters and `sub` a non-empty run of printable ASCII.
pub open spec fn is_simple_bracketed(s: Seq<char>) -> bool {
    &&& first_bracket(s) + 2 < s.len()
    &&& s.last() == ']'
    &&& is_ascii_word(key_part(s))
    &&& is_ascii_graphic_text(sub_part(s))
}

/// Matches a `ready` query value against `^(\w+)(?:\[(\S+)\])?$` with the
/// `regex` crate and returns capture groups 1 and 2.
///
/// Stated of the result: it is the named capture result of the value. Since
/// the pattern is anchored at both ends, a match without group 2 has group 1
/// equal to the whole value, and a match with group 2 spells the value as
/// `group1[group2]`. A non-empty run of ASCII word characters matches as
/// itself; `key[sub]` with `key` such a run and `sub` a non-empty run of
/// printable ASCII matches with `key` and `sub` (the key's `\w+` cannot take
/// in the `[`; the greedy `\S+` gives back the final `]`). Which other values match (Unicode word and whitespace
/// classes) is not stated.
#[verifier::external_body]
fn match_ready_field(value: &str) -> (r: Option<(String, Option<String>)>)
    ensures
        match (r, ready_field_captures(value@)) {
            (Some((g1, g2)), Some((s1, s2))) => g1@ == s1 && match (g2, s2) {
                (Some(a), Some(b)) => a@ == b,
                (None, None) => true,
                _ => false,
            },
            (None, None) => true,
            _ => false,
        },
        r matches Some((g1, None)) ==> g1@ == value@,
        r matches Some((g1, Some(g2))) ==> value@ == bracketed(g1@, g2@),
        is_ascii_word(value@) ==> r matches Some((_, None)),
        is_simple_bracketed(value@) ==> r matches Some((_, Some(_))),
        r matches Some((g1, Some(g2))) ==> (is_simple_bracketed(value@) ==> g1@ == key_part(value@) && g2@ == sub_part(value@)),
{
    let re = regex::Regex::new(r#"^(\w+)(?:\[(\S+)\])?$"#).unwrap();
    re.captures(value).and_then(|c| c.get(1).map(|g1| (g1.as_str().to_string(), c.get(2).map(|g2| g2.as_str().to_string()))))
}

/// Whether `c` is an ASCII decimal digit.
pub open spec fn is_digit(c: char) -> bool {
    '0' <= c && c <= '9'
}

/// Decimal value of a run of digits.
pub open spec fn digits_value(s: Seq<char>) -> int
    decreases s.len(),
{
    if s.len() == 0 {
        0
    } else {
        digits_value(s.drop_last()) * 10 + (s.last() as int - '0' as int)
    }
}

/// Whether every character of `s` is an ASCII digit.
pub open spec fn all_digits(s: Seq<char>) -> bool {
    forall|i: int| 0 <= i < s.len() ==> is_digit(#[trigger] s[i])
}

/// The text after an optional leading sign.
pub open spec fn unsigned_part(s: Seq<char>) -> Seq<char> {
    if s.len() > 0 && (s[0] == '-' || s[0] == '+') {
        s.drop_first()
    } else {
        s
    }
}

/// What `str::parse::<i32>` gives: an optional `+` or `-`, then one or more
/// ASCII digits, whose value must fit in an `i32`.
pub open spec fn parse_i32_spec(s: Seq<char>) -> Option<i32> {
    let body = unsigned_part(s);
    if body.len() > 0 && all_digits(body) {
        let v = if s.len() > 0 && s[0] == '-' { -digits_value(body) } else { digits_value(body) };
        if i32::MIN <= v <= i32::MAX {
            Some(v as i32)
        } else {
            None
        }
    } else {
        None
    }
}

proof fn lemma_digits_value_nonneg(s: Seq<char>)
    requires
        forall|i: int| 0 <= i < s.len() ==> is_digit(#[trigger] s[i]),
    ensures
        digits_value(s) >= 0,
    decreases s.len(),
{
    if s.len() > 0 {
        lemma_digits_value_nonneg(s.drop_last());
        assert(is_digit(s[s.len() - 1]));
    }
}

proof fn lemma_digits_value_prefix(s: Seq<char>, i: int)
    requires
        0 <= i <= s.len(),
        forall|k: int| 0 <= k < s.len() ==> is_digit(#[trigger] s[k]),
    ensures
        digits_value(s.subrange(0, i)) <= digits_value(s),
    decreases s.len() - i,
{
    if i < s.len() {
        lemma_digits_value_prefix(s, i + 1);
        let t = s.subrange(0, i + 1);
        assert(t.drop_last() =~= s.subrange(0, i));
        assert(is_digit(s[i]));
        lemma_digits_value_nonneg(s.subrange(0, i));
    } else {
        assert(s.subrange(0, i) =~= s);
    }
}

/// Parses a decimal `i32` as `str::parse::<i32>` does.
pub fn parse_i32(s: &str) -> (r: Option<i32>)
    ensures
        r == parse_i32_spec(s@),
{
    let n = s.unicode_len();
    if n == 0 {
        return None;
    }
    let first = s.get_char(0);
    let neg = first == '-';
    let start: usize = if first == '-' || first == '+' { 1 } else { 0 };
    let ghost body = unsigned_part(s@);
    assert(body =~= s@.subrange(start as int, n as int));
    if start == n {
        return None;
    }
    let mut acc: i64 = 0;
    let mut i: usize = start;
    while i < n
        invariant
            n == s@.len(),
            start <= i <= n,
            body == s@.subrange(start as int, n as int),
            body == unsigned_part(s@),
            n > 0,
            neg == (s@[0] == '-'),
            forall|k: int| 0 <= k < i - start ==> is_digit(#[trigger] body[k]),
            acc == digits_value(body.subrange(0, i - start)),
            0 <= acc <= 2147483648,
        decreases n - i,
    {
        let c = s.get_char(i);
        if !('0' <= c && c <= '9') {
            proof {
                assert(body[i - start] == c);
                assert(!is_digit(body[i - start]));
                assert(!all_digits(body));
            }
            return None;
        }
        let d = (c as u32 - '0' as u32) as i64;
        proof {
            let t = body.subrange(0, i - start + 1);
            assert(t.drop_last() =~= body.subrange(0, i - start));
            assert(t.last() == c);
        }
        acc = acc * 10 + d;
        i = i + 1;
        if acc > 2147483648 {
            // Any longer run of digits is at least as large, so no value fits.
            proof {
                if all_digits(body) {
                    lemma_digits_value_prefix(body, i - start);
                }
            }
            return None;
        }
    }
    assert(body.subrange(0, n - start) =~= body);
    assert(all_digits(body));
    if neg {
        Some((0 - acc) as i32)
    } else if acc <= 2147483647 {
        Some(acc as i32)
    } else {
        None
    }
}

/// Enumeration of supported protocol formats
pub enum ProtocolFormat {
    Json,
    Msgpack,
}

/// Fields provided in Ready payload
pub struct ReadyPayloadFields {
    pub users: bool,
    pub servers: bool,
    pub channels: bool,
    pub members: bool,
    pub emojis: bool,
    pub voice_states: bool,
    pub user_settings: Vec<String>,
    pub channel_unreads: bool,
    pub policy_changes: bool,
}

/// The meaning of a set of ready-payload fields.
pub struct FieldsView {
    pub users: bool,
    pub servers: bool,
    pub channels: bool,
    pub members: bool,
    pub emojis: bool,
    pub voice_states: bool,
    pub user_settings: Seq<Seq<char>>,
    pub channel_unreads: bool,
    pub policy_changes: bool,
}

impl View for ReadyPayloadFields {
    type V = FieldsView;

    open spec fn view(&self) -> FieldsView {
        FieldsView {
            users: self.users,
            servers: self.servers,
            channels: self.channels,
            members: self.members,
            emojis: self.emojis,
            voice_states: self.voice_states,
            user_settings: views(self.user_settings@),
            channel_unreads: self.channel_unreads,
            policy_changes: self.policy_changes,
        }
    }
}

/// Ready-payload fields that a client gets unless it names some: everything
/// but voice states and channel unreads.
pub open spec fn default_fields() -> FieldsView {
    FieldsView {
        users: true,
        servers: true,
        channels: true,
        members: true,
        emojis: true,
        voice_states: false,
        user_settings: seq![],
        channel_unreads: false,
        policy_changes: true,
    }
}

/// Ready-payload fields with nothing selected.
pub open spec fn no_fields() -> FieldsView {
    FieldsView {
        users: false,
        servers: false,
        channels: false,
        members: false,
        emojis: false,
        voice_states: false,
        user_settings: seq![],
        channel_unreads: false,
        policy_changes: false,
    }
}

impl Default for ReadyPayloadFields {
    fn default() -> (r: Self)
        ensures
            r@ == default_fields(),
    {
        ReadyPayloadFields::default_fields()
    }
}

impl ReadyPayloadFields {
    /// The fields sent when the client does not choose.
    pub fn default_fields() -> (r: ReadyPayloadFields)
        ensures
            r@ == default_fields(),
    {
        let r = ReadyPayloadFields {
            users: true,
            servers: true,
            channels: true,
            members: true,
            emojis: true,
            voice_states: false,
            user_settings: Vec::new(),
            channel_unreads: false,
            policy_changes: true,
        };
        assert(r@.user_settings =~= Seq::<Seq<char>>::empty());
        r
    }

    /// No field selected: a client that names fields starts from here.
    pub fn none_selected() -> (r: ReadyPayloadFields)
        ensures
            r@ == no_fields(),
    {
        let r = ReadyPayloadFields {
            users: false,
            servers: false,
            channels: false,
            members: false,
            emojis: false,
            voice_states: false,
            user_settings: Vec::new(),
            channel_unreads: false,
            policy_changes: false,
        };
        assert(r@.user_settings =~= Seq::<Seq<char>>::empty());
        r
    }
}

/// User-provided protocol configuration
pub struct ProtocolConfiguration {
    protocol_version: i32,
    format: ProtocolFormat,
    session_token: Option<String>,
    ready_payload_fields: ReadyPayloadFields,
}

/// The meaning of a protocol configuration.
pub struct ConfigView {
    pub version: i32,
    pub msgpack: bool,
    pub token: Option<Seq<char>>,
    pub fields: FieldsView,
}

impl View for ProtocolConfiguration {
    type V = ConfigView;

    closed spec fn view(&self) -> ConfigView {
        ConfigView {
            version: self.protocol_version,
            msgpack: self.format is Msgpack,
            token: opt_view(self.session_token),
            fields: self.ready_payload_fields@,
        }
    }
}

/// Re-enables the ready field that a `ready` value names: a bare field name
/// turns that field on, and `user_settings[key]` adds the settings key `key`.
pub open spec fn select_field(f: FieldsView, value: Seq<char>) -> FieldsView {
    match ready_field_captures(value) {
        Some((key, sub)) => {
            if key == "users"@ {
                FieldsView { users: true, ..f }
            } else if key == "servers"@ {
                FieldsView { servers: true, ..f }
            } else if key == "channels"@ {
                FieldsView { channels: true, ..f }
            } else if key == "members"@ {
                FieldsView { members: true, ..f }
            } else if key == "emojis"@ {
                FieldsView { emojis: true, ..f }
            } else if key == "voice_states"@ {
                FieldsView { voice_states: true, ..f }
            } else if key == "channel_unreads"@ {
                FieldsView { channel_unreads: true, ..f }
            } else if key == "user_settings"@ {
                match sub {
                    Some(sub) => FieldsView { user_settings: f.user_settings.push(sub), ..f },
                    None => f,
                }
            } else if key == "policy_changes"@ {
                FieldsView { policy_changes: true, ..f }
            } else {
                f
            }
        },
        None => f,
    }
}

/// Effect of one query parameter on the configuration being built.
pub open spec fn apply_param(c: ConfigView, key: Seq<char>, value: Seq<char>) -> ConfigView {
    if key == "version"@ {
        match parse_i32_spec(value) {
            Some(v) => ConfigView { version: v, ..c },
            None => c,
        }
    } else if key == "format"@ {
        if value == "json"@ {
            ConfigView { msgpack: false, ..c }
        } else if value == "msgpack"@ {
            ConfigView { msgpack: true, ..c }
        } else {
            c
        }
    } else if key == "token"@ {
        ConfigView { token: Some(value), ..c }
    } else if key == "ready"@ {
        ConfigView { fields: select_field(c.fields, value), ..c }
    } else {
        c
    }
}

/// The starting configuration of a handshake before parameters apply.
pub open spec fn handshake_start(params: Seq<(Seq<char>, Seq<char>)>) -> ConfigView {
    ConfigView {
        version: 1,
        msgpack: false,
        token: None,
        fields: if (exists|i: int| 0 <= i < params.len() && (#[trigger] params[i]).0 == "ready"@) {
            no_fields()
        } else {
            default_fields()
        },
    }
}

/// The configuration after applying the parameters in order.
pub open spec fn fold_params(start: ConfigView, params: Seq<(Seq<char>, Seq<char>)>) -> ConfigView
    decreases params.len(),
{
    if params.len() == 0 {
        start
    } else {
        let c = fold_params(start, params.drop_last());
        apply_param(c, params.last().0, params.last().1)
    }
}

/// The views of a list of query parameters.
pub open spec fn param_views(v: Seq<(String, String)>) -> Seq<(Seq<char>, Seq<char>)> {
    v.map_values(|p: (String, String)| (p.0@, p.1@))
}

impl ProtocolConfiguration {
    /// Create a new protocol configuration object from provided data
    pub fn from(
        protocol_version: i32,
        format: ProtocolFormat,
        session_token: Option<String>,
        ready_payload_fields: ReadyPayloadFields,
    ) -> (r: Self)
        ensures
            r@ == (ConfigView {
                version: protocol_version,
                msgpack: format is Msgpack,
                token: opt_view(session_token),
                fields: ready_payload_fields@,
            }),
    {
        Self { protocol_version, format, session_token, ready_payload_fields }
    }

    /// Set the current session token
    pub fn set_session_token(&mut self, token: String)
        ensures
            final(self)@ == (ConfigView { token: Some(token@), ..old(self)@ }),
    {
        self.session_token = Some(token);
    }

    /// Get the current session token
    pub fn get_session_token(&self) -> (r: &Option<String>)
        ensures
            opt_view(*r) == self@.token,
    {
        &self.session_token
    }

    /// Get the protocol version specified
    pub fn get_protocol_version(&self) -> (r: i32)
        ensures
            r == self@.version,
    {
        self.protocol_version
    }

    /// Get the protocol format specified
    pub fn get_protocol_format(&self) -> (r: &ProtocolFormat)
        ensures
            (*r is Msgpack) == self@.msgpack,
    {
        &self.format
    }

    /// Get ready payload fields
    pub fn get_ready_payload_fields(&self) -> (r: &ReadyPayloadFields)
        ensures
            (*r)@ == self@.fields,
    {
        &self.ready_payload_fields
    }
}

impl ProtocolConfiguration {
    /// Re-enables the ready field that a `ready` query value names.
    fn select_ready_field(&mut self, value: &str)
        ensures
            final(self)@ == (ConfigView { fields: select_field(old(self)@.fields, value@), ..old(self)@ }),
    {
        let caps = match_ready_field(value);
        let (key, sub) = match caps {
            Some(c) => c,
            None => {
                return;
            },
        };
        let f = &mut self.ready_payload_fields;
        if same_text(key.as_str(), "users") {
            f.users = true;
        } else if same_text(key.as_str(), "servers") {
            f.servers = true;
        } else if same_text(key.as_str(), "channels") {
            f.channels = true;
        } else if same_text(key.as_str(), "members") {
            f.members = true;
        } else if same_text(key.as_str(), "emojis") {
            f.emojis = true;
        } else if same_text(key.as_str(), "voice_states") {
            f.voice_states = true;
        } else if same_text(key.as_str(), "channel_unreads") {
            f.channel_unreads = true;
        } else if same_text(key.as_str(), "user_settings") {
            if let Some(sub) = sub {
                let ghost before = f.user_settings@;
                let ghost sg = sub;
                f.user_settings.push(sub);
                assert(views(before.push(sg)) =~= views(before).push(sg@));
            }
        } else if same_text(key.as_str(), "policy_changes") {
            f.policy_changes = true;
        }
    }

    /// Applies one query parameter to the configuration.
    fn apply_query_param(&mut self, key: &str, value: &str)
        ensures
            final(self)@ == apply_param(old(self)@, key@, value@),
    {
        if same_text(key, "version") {
            if let Some(v) = parse_i32(value) {
                self.protocol_version = v;
            }
        } else if same_text(key, "format") {
            if same_text(value, "json") {
                self.format = ProtocolFormat::Json;
            } else if same_text(value, "msgpack") {
                self.format = ProtocolFormat::Msgpack;
            }
        } else if same_text(key, "token") {
            self.session_token = Some(value.to_owned());
        } else if same_text(key, "ready") {
            self.select_ready_field(value);
        }
    }

    /// The configuration that a handshake's query parameters describe:
    /// protocol version 1, JSON, no session token and the default ready
    /// fields (none at all when some `ready` parameter is present), then each
    /// known parameter applied in order; unknown keys and unparsable values
    /// are ignored.
    pub fn from_query_params(params: &Vec<(String, String)>) -> (r: ProtocolConfiguration)
        ensures
            r@ == fold_params(handshake_start(param_views(params@)), param_views(params@)),
    {
        let ghost pv = param_views(params@);
        let mut any_ready = false;
        let mut i: usize = 0;
        while i < params.len()
            invariant
                i <= params.len(),
                pv == param_views(params@),
                any_ready == (exists|k: int| 0 <= k < i && (#[trigger] pv[k]).0 == "ready"@),
            decreases params.len() - i,
        {
            if same_text(params[i].0.as_str(), "ready") {
                any_ready = true;
                assert(pv[i as int].0 == "ready"@);
            }
            i = i + 1;
        }
        let fields = if any_ready { ReadyPayloadFields::none_selected() } else { ReadyPayloadFields::default_fields() };
        let mut cfg = ProtocolConfiguration {
            protocol_version: 1,
            format: ProtocolFormat::Json,
            session_token: None,
            ready_payload_fields: fields,
        };
        assert(cfg@ == handshake_start(pv));
        let mut j: usize = 0;
        assert(pv.subrange(0, 0) =~= Seq::<(Seq<char>, Seq<char>)>::empty());
        while j < params.len()
            invariant
                j <= params.len(),
                pv == param_views(params@),
                cfg@ == fold_params(handshake_start(pv), pv.subrange(0, j as int)),
            decreases params.len() - j,
        {
            assert(pv.subrange(0, j + 1).drop_last() =~= pv.subrange(0, j as int));
            assert(pv.subrange(0, j + 1).last() == pv[j as int]);
            cfg.apply_query_param(params[j].0.as_str(), params[j].1.as_str());
            j = j + 1;
        }
        assert(pv.subrange(0, pv.len() as int) =~= pv);
        cfg
    }

    /// The configuration that a handshake's query string describes, parsed
    /// into key-value pairs as `querystring::querify` does.
    pub fn from_query(query: &str) -> (r: ProtocolConfiguration)
        ensures
            r@ == fold_params(handshake_start(query_pairs(query@)), query_pairs(query@)),
    {
        let params = ProtocolConfiguration::query_params_of(query);
        ProtocolConfiguration::from_query_params(&params)
    }

    /// The key-value pairs of a query string.
    fn query_params_of(query: &str) -> (r: Vec<(String, String)>)
        ensures
            param_views(r@) == query_pairs(query@),
    {
        let r = query_params(query);
        assert(param_views(r@) =~= query_pairs(query@));
        r
    }
}


/// A `ready` value that the pattern reads as a bare field name turns on that
/// field and changes nothing else; a bare name that is not a field (or the
/// bare `user_settings`) changes nothing.
pub proof fn lemma_bare_field_name_selects_it(f: FieldsView, value: Seq<char>)
    requires
        ready_field_captures(value) matches Some((v, None)) && v == value,
    ensures
        value == "users"@ ==> select_field(f, value) == (FieldsView { users: true, ..f }),
        value == "servers"@ ==> select_field(f, value) == (FieldsView { servers: true, ..f }),
        value == "channels"@ ==> select_field(f, value) == (FieldsView { channels: true, ..f }),
        value == "members"@ ==> select_field(f, value) == (FieldsView { members: true, ..f }),
        value == "emojis"@ ==> select_field(f, value) == (FieldsView { emojis: true, ..f }),
        value == "voice_states"@ ==> select_field(f, value) == (FieldsView { voice_states: true, ..f }),
        value == "channel_unreads"@ ==> select_field(f, value) == (FieldsView { channel_unreads: true, ..f }),
        value == "policy_changes"@ ==> select_field(f, value) == (FieldsView { policy_changes: true, ..f }),
        value == "user_settings"@ ==> select_field(f, value) == f,
        select_field(f, value).user_settings == f.user_settings,
{
    reveal_strlit("users");
    reveal_strlit("servers");
    reveal_strlit("channels");
    reveal_strlit("members");
    reveal_strlit("emojis");
    reveal_strlit("voice_states");
    reveal_strlit("user_settings");
    reveal_strlit("channel_unreads");
    reveal_strlit("policy_changes");
    assert("users"@.len() == 5);
    assert("servers"@.len() == 7);
    assert("channels"@.len() == 8);
    assert("members"@.len() == 7);
    assert("emojis"@.len() == 6);
    assert("voice_states"@.len() == 12);
    assert("user_settings"@.len() == 13);
    assert("channel_unreads"@.len() == 15);
    assert("policy_changes"@.len() == 14);
    assert("servers"@[0] == 's' && "members"@[0] == 'm');
}

/// `user_settings[key]`, read by the pattern as the field and its key, adds
/// the key to the settings keys and changes nothing else.
pub proof fn lemma_settings_key_is_added(f: FieldsView, value: Seq<char>, key: Seq<char>)
    requires
        ready_field_captures(value) == Some(("user_settings"@, Some(key))),
    ensures
        select_field(f, value) == (FieldsView { user_settings: f.user_settings.push(key), ..f }),
{
    reveal_strlit("users");
    reveal_strlit("servers");
    reveal_strlit("channels");
    reveal_strlit("members");
    reveal_strlit("emojis");
    reveal_strlit("voice_states");
    reveal_strlit("user_settings");
    reveal_strlit("channel_unreads");
    reveal_strlit("policy_changes");
    assert("users"@.len() == 5);
    assert("servers"@.len() == 7);
    assert("channels"@.len() == 8);
    assert("members"@.len() == 7);
    assert("emojis"@.len() == 6);
    assert("voice_states"@.len() == 12);
    assert("user_settings"@.len() == 13);
    assert("channel_unreads"@.len() == 15);
    assert("policy_changes"@.len() == 14);
    assert("servers"@[0] == 's' && "members"@[0] == 'm');
}

} // verus!
