//! The server-data directory: the login form, the `key|value` answer of the
//! directory, and where that answer comes from.

use vstd::prelude::*;
use crate::text::{
    IntErrorKind, chars_of, decimal, find_from, is_digit, is_white_space, lemma_decimal_digits, lemma_parse_unsigned_bound,
    law_decimal_reads_back, find_in_range, lemma_find_from_bounds, lines,
    parse_unsigned_range, range_starts_with, trim_range, parse_unsigned, push_decimal, range_equals, split_once,
    starts_with, trim,
};

verus! {

/// What the client tells the directory about itself.
pub struct LoginInfo {
    pub protocol: u32,
    pub game_version: String,
}

/// `protocol=<protocol>&version=<version>`.
pub open spec fn form_data(protocol: u32, version: Seq<char>) -> Seq<char> {
    "protocol="@ + decimal(protocol as nat) + "&version="@ + version
}

impl LoginInfo {
    /// The URL-encoded form that describes this client.
    pub fn to_form_data(&self) -> (r: String)
        ensures
            r@ == form_data(self.protocol, self.game_version@),
    {
        let mut s = String::from_str("protocol=");
        push_decimal(&mut s, self.protocol);
        s.append("&version=");
        s.append(self.game_version.as_str());
        s
    }
}

/// What the directory answers: the game server and its alternatives.
#[derive(Debug)]
pub struct ServerData {
    pub server: String,
    pub port: u16,
    pub loginurl: String,
    pub server_type: u8,
    pub beta_server: String,
    pub beta_loginurl: String,
    pub beta_port: u16,
    pub beta_type: u8,
    pub beta2_server: String,
    pub beta2_loginurl: String,
    pub beta2_port: u16,
    pub beta2_type: u8,
    pub beta3_server: String,
    pub beta3_loginurl: String,
    pub beta3_port: u16,
    pub beta3_type: u8,
    pub type2: u8,
    pub maint: Option<String>,
    pub meta: String,
}

/// `ServerData` with its strings taken as character sequences.
pub struct ServerDataView {
    pub server: Seq<char>,
    pub port: u16,
    pub loginurl: Seq<char>,
    pub server_type: u8,
    pub beta_server: Seq<char>,
    pub beta_loginurl: Seq<char>,
    pub beta_port: u16,
    pub beta_type: u8,
    pub beta2_server: Seq<char>,
    pub beta2_loginurl: Seq<char>,
    pub beta2_port: u16,
    pub beta2_type: u8,
    pub beta3_server: Seq<char>,
    pub beta3_loginurl: Seq<char>,
    pub beta3_port: u16,
    pub beta3_type: u8,
    pub type2: u8,
    pub maint: Option<Seq<char>>,
    pub meta: Seq<char>,
}

impl View for ServerData {
    type V = ServerDataView;

    open spec fn view(&self) -> ServerDataView {
        ServerDataView {
            server: self.server@,
            port: self.port,
            loginurl: self.loginurl@,
            server_type: self.server_type,
            beta_server: self.beta_server@,
            beta_loginurl: self.beta_loginurl@,
            beta_port: self.beta_port,
            beta_type: self.beta_type,
            beta2_server: self.beta2_server@,
            beta2_loginurl: self.beta2_loginurl@,
            beta2_port: self.beta2_port,
            beta2_type: self.beta2_type,
            beta3_server: self.beta3_server@,
            beta3_loginurl: self.beta3_loginurl@,
            beta3_port: self.beta3_port,
            beta3_type: self.beta3_type,
            type2: self.type2,
            maint: match self.maint {
                Some(m) => Some(m@),
                None => None,
            },
            meta: self.meta@,
        }
    }
}

/// Empty strings, zeros and no maintenance text.
pub open spec fn empty_server_data() -> ServerDataView {
    ServerDataView {
        server: Seq::empty(),
        port: 0,
        loginurl: Seq::empty(),
        server_type: 0,
        beta_server: Seq::empty(),
        beta_loginurl: Seq::empty(),
        beta_port: 0,
        beta_type: 0,
        beta2_server: Seq::empty(),
        beta2_loginurl: Seq::empty(),
        beta2_port: 0,
        beta2_type: 0,
        beta3_server: Seq::empty(),
        beta3_loginurl: Seq::empty(),
        beta3_port: 0,
        beta3_type: 0,
        type2: 0,
        maint: None,
        meta: Seq::empty(),
    }
}

impl Default for ServerData {
    fn default() -> (d: Self)
        ensures
            d@ == empty_server_data(),
    {
        ServerData {
            server: String::new(),
            port: 0,
            loginurl: String::new(),
            server_type: 0,
            beta_server: String::new(),
            beta_loginurl: String::new(),
            beta_port: 0,
            beta_type: 0,
            beta2_server: String::new(),
            beta2_loginurl: String::new(),
            beta2_port: 0,
            beta2_type: 0,
            beta3_server: String::new(),
            beta3_loginurl: String::new(),
            beta3_port: 0,
            beta3_type: 0,
            type2: 0,
            maint: None,
            meta: String::new(),
        }
    }
}

/// Why the server data could not be had.
#[derive(Debug)]
pub enum ServerDataError {
    /// A numeric field of the answer is no number of its type.
    InvalidNumber(IntErrorKind),
    /// The proxy address is not one that the HTTP client accepts.
    InvalidProxyUrl,
}

/// The fields of the answer, each by the key that names it.
#[derive(Debug, Clone, Copy, PartialEq, Eq, Structural)]
pub enum Field {
    Server,
    Port,
    LoginUrl,
    Type,
    BetaServer,
    BetaLoginUrl,
    BetaPort,
    BetaType,
    Beta2Server,
    Beta2LoginUrl,
    Beta2Port,
    Beta2Type,
    Beta3Server,
    Beta3LoginUrl,
    Beta3Port,
    Beta3Type,
    Type2,
    Maint,
    Meta,
}

/// The field that `key` names, if any.
pub open spec fn field_named(key: Seq<char>) -> Option<Field> {
    if key == "server"@ {
        Some(Field::Server)
    } else if key == "port"@ {
        Some(Field::Port)
    } else if key == "loginurl"@ {
        Some(Field::LoginUrl)
    } else if key == "type"@ {
        Some(Field::Type)
    } else if key == "beta_server"@ {
        Some(Field::BetaServer)
    } else if key == "beta_loginurl"@ {
        Some(Field::BetaLoginUrl)
    } else if key == "beta_port"@ {
        Some(Field::BetaPort)
    } else if key == "beta_type"@ {
        Some(Field::BetaType)
    } else if key == "beta2_server"@ {
        Some(Field::Beta2Server)
    } else if key == "beta2_loginurl"@ {
        Some(Field::Beta2LoginUrl)
    } else if key == "beta2_port"@ {
        Some(Field::Beta2Port)
    } else if key == "beta2_type"@ {
        Some(Field::Beta2Type)
    } else if key == "beta3_server"@ {
        Some(Field::Beta3Server)
    } else if key == "beta3_loginurl"@ {
        Some(Field::Beta3LoginUrl)
    } else if key == "beta3_port"@ {
        Some(Field::Beta3Port)
    } else if key == "beta3_type"@ {
        Some(Field::Beta3Type)
    } else if key == "type2"@ {
        Some(Field::Type2)
    } else if key == "#maint"@ {
        Some(Field::Maint)
    } else if key == "meta"@ {
        Some(Field::Meta)
    } else {
        None
    }
}

fn field_of(v: &Vec<char>, start: usize, end: usize) -> (f: Option<Field>)
    requires
        start <= end <= v.len(),
    ensures
        f == field_named(v@.subrange(start as int, end as int)),
{
    if range_equals(v, start, end, "server") {
        Some(Field::Server)
    } else if range_equals(v, start, end, "port") {
        Some(Field::Port)
    } else if range_equals(v, start, end, "loginurl") {
        Some(Field::LoginUrl)
    } else if range_equals(v, start, end, "type") {
        Some(Field::Type)
    } else if range_equals(v, start, end, "beta_server") {
        Some(Field::BetaServer)
    } else if range_equals(v, start, end, "beta_loginurl") {
        Some(Field::BetaLoginUrl)
    } else if range_equals(v, start, end, "beta_port") {
        Some(Field::BetaPort)
    } else if range_equals(v, start, end, "beta_type") {
        Some(Field::BetaType)
    } else if range_equals(v, start, end, "beta2_server") {
        Some(Field::Beta2Server)
    } else if range_equals(v, start, end, "beta2_loginurl") {
        Some(Field::Beta2LoginUrl)
    } else if range_equals(v, start, end, "beta2_port") {
        Some(Field::Beta2Port)
    } else if range_equals(v, start, end, "beta2_type") {
        Some(Field::Beta2Type)
    } else if range_equals(v, start, end, "beta3_server") {
        Some(Field::Beta3Server)
    } else if range_equals(v, start, end, "beta3_loginurl") {
        Some(Field::Beta3LoginUrl)
    } else if range_equals(v, start, end, "beta3_port") {
        Some(Field::Beta3Port)
    } else if range_equals(v, start, end, "beta3_type") {
        Some(Field::Beta3Type)
    } else if range_equals(v, start, end, "type2") {
        Some(Field::Type2)
    } else if range_equals(v, start, end, "#maint") {
        Some(Field::Maint)
    } else if range_equals(v, start, end, "meta") {
        Some(Field::Meta)
    } else {
        None
    }
}

/// Lines at and after the first line that starts with the end marker do not
/// change what is read.
pub proof fn law_end_marker_ends_answer(
    before: Seq<Seq<char>>,
    marker_line: Seq<char>,
    after: Seq<Seq<char>>,
    d: ServerDataView,
)
    requires
        starts_with(marker_line, end_marker()),
    ensures
        apply_lines(before + seq![marker_line] + after, d) == apply_lines(before, d),
    decreases before.len(),
{
    let all = before + seq![marker_line] + after;
    if before.len() == 0 {
        assert(all[0] == marker_line);
    } else {
        assert(all[0] == before[0]);
        assert(all.drop_first() =~= before.drop_first() + seq![marker_line] + after);
        if !starts_with(before[0], end_marker()) {
            if let Ok(d2) = apply_line(d, before[0]) {
                law_end_marker_ends_answer(before.drop_first(), marker_line, after, d2);
            }
        }
    }
}

/// A line that is no end marker and names no field (it has no `|`, or its
/// trimmed key is unknown) changes nothing.
pub proof fn law_unknown_lines_are_skipped(
    before: Seq<Seq<char>>,
    line: Seq<char>,
    after: Seq<Seq<char>>,
    d: ServerDataView,
)
    requires
        !starts_with(line, end_marker()),
        split_once(line, '|') matches Some((key, _)) ==> field_named(trim(key)) is None,
    ensures
        apply_lines(before + seq![line] + after, d) == apply_lines(before + after, d),
    decreases before.len(),
{
    let all = before + seq![line] + after;
    let rest = before + after;
    if before.len() == 0 {
        assert(all[0] == line);
        assert(apply_line(d, line) == Ok::<ServerDataView, IntErrorKind>(d));
        assert(all.drop_first() =~= rest);
    } else {
        assert(all[0] == before[0]);
        assert(rest[0] == before[0]);
        assert(all.drop_first() =~= before.drop_first() + seq![line] + after);
        assert(rest.drop_first() =~= before.drop_first() + after);
        if !starts_with(before[0], end_marker()) {
            if let Ok(d2) = apply_line(d, before[0]) {
                law_unknown_lines_are_skipped(before.drop_first(), line, after, d2);
            }
        }
    }
}

/// Setting a field a second time gives what setting it only the second
/// time gives: a later line for a key wins over an earlier one.
pub proof fn law_later_value_wins(d: ServerDataView, f: Field, first: Seq<char>, second: Seq<char>)
    requires
        set_field(d, f, first) is Ok,
    ensures
        set_field(set_field(d, f, first)->Ok_0, f, second) == set_field(d, f, second),
{
}

/// Whether `a` and `b` agree on every field but the one that `f` names.
pub open spec fn same_except(a: ServerDataView, b: ServerDataView, f: Field) -> bool {
    &&& f != Field::Server ==> a.server == b.server
    &&& f != Field::Port ==> a.port == b.port
    &&& f != Field::LoginUrl ==> a.loginurl == b.loginurl
    &&& f != Field::Type ==> a.server_type == b.server_type
    &&& f != Field::BetaServer ==> a.beta_server == b.beta_server
    &&& f != Field::BetaLoginUrl ==> a.beta_loginurl == b.beta_loginurl
    &&& f != Field::BetaPort ==> a.beta_port == b.beta_port
    &&& f != Field::BetaType ==> a.beta_type == b.beta_type
    &&& f != Field::Beta2Server ==> a.beta2_server == b.beta2_server
    &&& f != Field::Beta2LoginUrl ==> a.beta2_loginurl == b.beta2_loginurl
    &&& f != Field::Beta2Port ==> a.beta2_port == b.beta2_port
    &&& f != Field::Beta2Type ==> a.beta2_type == b.beta2_type
    &&& f != Field::Beta3Server ==> a.beta3_server == b.beta3_server
    &&& f != Field::Beta3LoginUrl ==> a.beta3_loginurl == b.beta3_loginurl
    &&& f != Field::Beta3Port ==> a.beta3_port == b.beta3_port
    &&& f != Field::Beta3Type ==> a.beta3_type == b.beta3_type
    &&& f != Field::Type2 ==> a.type2 == b.type2
    &&& f != Field::Maint ==> a.maint == b.maint
    &&& f != Field::Meta ==> a.meta == b.meta
}

/// Whether `f` holds a `u16`.
pub open spec fn is_port_field(f: Field) -> bool {
    f == Field::Port || f == Field::BetaPort || f == Field::Beta2Port || f == Field::Beta3Port
}

/// Whether `f` holds a `u8`.
pub open spec fn is_type_field(f: Field) -> bool {
    f == Field::Type || f == Field::BetaType || f == Field::Beta2Type || f == Field::Beta3Type
        || f == Field::Type2
}

/// Setting field `f` from `value` changes that field and no other. A text
/// field takes `value` as it is (the maintenance text as `Some`); a port
/// field takes `value` read as a `u16`, a type field as a `u8`, and only
/// these can fail, exactly where that reading fails and with its error.
pub proof fn law_set_field_sets_only_its_field(d: ServerDataView, f: Field, value: Seq<char>)
    ensures
        set_field(d, f, value) matches Ok(d2) ==> same_except(d, d2, f),
        is_port_field(f) && parse_unsigned(value, 0xffff) is Ok ==> set_field(d, f, value) is Ok
            && port_of(set_field(d, f, value)->Ok_0, f) == parse_unsigned(value, 0xffff)->Ok_0,
        is_port_field(f) && parse_unsigned(value, 0xffff) is Err ==> set_field(d, f, value)
            == Err::<ServerDataView, IntErrorKind>(parse_unsigned(value, 0xffff)->Err_0),
        is_type_field(f) && parse_unsigned(value, 0xff) is Ok ==> set_field(d, f, value) is Ok
            && type_of(set_field(d, f, value)->Ok_0, f) == parse_unsigned(value, 0xff)->Ok_0,
        is_type_field(f) && parse_unsigned(value, 0xff) is Err ==> set_field(d, f, value)
            == Err::<ServerDataView, IntErrorKind>(parse_unsigned(value, 0xff)->Err_0),
        !is_port_field(f) && !is_type_field(f) ==> set_field(d, f, value) is Ok && text_of(
            set_field(d, f, value)->Ok_0,
            f,
        ) == Some(value),
{
    lemma_parse_unsigned_bound(value, 0xffff);
    lemma_parse_unsigned_bound(value, 0xff);
}

/// The port field that `f` names.
pub open spec fn port_of(d: ServerDataView, f: Field) -> u16 {
    if f == Field::Port {
        d.port
    } else if f == Field::BetaPort {
        d.beta_port
    } else if f == Field::Beta2Port {
        d.beta2_port
    } else {
        d.beta3_port
    }
}

/// The type field that `f` names.
pub open spec fn type_of(d: ServerDataView, f: Field) -> u8 {
    if f == Field::Type {
        d.server_type
    } else if f == Field::BetaType {
        d.beta_type
    } else if f == Field::Beta2Type {
        d.beta2_type
    } else if f == Field::Beta3Type {
        d.beta3_type
    } else {
        d.type2
    }
}

/// The text field that `f` names (the maintenance text as it is held).
pub open spec fn text_of(d: ServerDataView, f: Field) -> Option<Seq<char>> {
    if f == Field::Server {
        Some(d.server)
    } else if f == Field::LoginUrl {
        Some(d.loginurl)
    } else if f == Field::BetaServer {
        Some(d.beta_server)
    } else if f == Field::BetaLoginUrl {
        Some(d.beta_loginurl)
    } else if f == Field::Beta2Server {
        Some(d.beta2_server)
    } else if f == Field::Beta2LoginUrl {
        Some(d.beta2_loginurl)
    } else if f == Field::Beta3Server {
        Some(d.beta3_server)
    } else if f == Field::Beta3LoginUrl {
        Some(d.beta3_loginurl)
    } else if f == Field::Maint {
        d.maint
    } else {
        Some(d.meta)
    }
}

/// A line `key|value` changes at most the field that its trimmed key names;
/// a line whose key names no field changes nothing.
pub proof fn law_line_sets_only_its_field(d: ServerDataView, line: Seq<char>)
    ensures
        apply_line(d, line) matches Ok(d2) ==> match split_once(line, '|') {
            Some((key, _)) => match field_named(trim(key)) {
                Some(f) => same_except(d, d2, f),
                None => d2 == d,
            },
            None => d2 == d,
        },
{
    if let Some((key, value)) = split_once(line, '|') {
        if let Some(f) = field_named(trim(key)) {
            law_set_field_sets_only_its_field(d, f, trim(value));
        }
    }
}

/// Each key of the answer names its own field: `server` the server,
/// `type` the server type, `type2` the second type, `#maint` the maintenance
/// text, and so on, and no two keys name the same field.
pub proof fn law_each_key_names_its_field()
    ensures
        field_named("server"@) == Some(Field::Server),
        field_named("port"@) == Some(Field::Port),
        field_named("loginurl"@) == Some(Field::LoginUrl),
        field_named("type"@) == Some(Field::Type),
        field_named("beta_server"@) == Some(Field::BetaServer),
        field_named("beta_loginurl"@) == Some(Field::BetaLoginUrl),
        field_named("beta_port"@) == Some(Field::BetaPort),
        field_named("beta_type"@) == Some(Field::BetaType),
        field_named("beta2_server"@) == Some(Field::Beta2Server),
        field_named("beta2_loginurl"@) == Some(Field::Beta2LoginUrl),
        field_named("beta2_port"@) == Some(Field::Beta2Port),
        field_named("beta2_type"@) == Some(Field::Beta2Type),
        field_named("beta3_server"@) == Some(Field::Beta3Server),
        field_named("beta3_loginurl"@) == Some(Field::Beta3LoginUrl),
        field_named("beta3_port"@) == Some(Field::Beta3Port),
        field_named("beta3_type"@) == Some(Field::Beta3Type),
        field_named("type2"@) == Some(Field::Type2),
        field_named("#maint"@) == Some(Field::Maint),
        field_named("meta"@) == Some(Field::Meta),
{
    reveal_strlit("server");
    reveal_strlit("port");
    reveal_strlit("loginurl");
    reveal_strlit("type");
    reveal_strlit("beta_server");
    reveal_strlit("beta_loginurl");
    reveal_strlit("beta_port");
    reveal_strlit("beta_type");
    reveal_strlit("beta2_server");
    reveal_strlit("beta2_loginurl");
    reveal_strlit("beta2_port");
    reveal_strlit("beta2_type");
    reveal_strlit("beta3_server");
    reveal_strlit("beta3_loginurl");
    reveal_strlit("beta3_port");
    reveal_strlit("beta3_type");
    reveal_strlit("type2");
    reveal_strlit("#maint");
    reveal_strlit("meta");
    assert("port"@.len() != "server"@.len());
    assert("loginurl"@.len() != "server"@.len());
    assert("loginurl"@.len() != "port"@.len());
    assert("type"@.len() != "server"@.len());
    assert("type"@[0] != "port"@[0]);
    assert("type"@.len() != "loginurl"@.len());
    assert("beta_server"@.len() != "server"@.len());
    assert("beta_server"@.len() != "port"@.len());
    assert("beta_server"@.len() != "loginurl"@.len());
    assert("beta_server"@.len() != "type"@.len());
    assert("beta_loginurl"@.len() != "server"@.len());
    assert("beta_loginurl"@.len() != "port"@.len());
    assert("beta_loginurl"@.len() != "loginurl"@.len());
    assert("beta_loginurl"@.len() != "type"@.len());
    assert("beta_loginurl"@.len() != "beta_server"@.len());
    assert("beta_port"@.len() != "server"@.len());
    assert("beta_port"@.len() != "port"@.len());
    assert("beta_port"@.len() != "loginurl"@.len());
    assert("beta_port"@.len() != "type"@.len());
    assert("beta_port"@.len() != "beta_server"@.len());
    assert("beta_port"@.len() != "beta_loginurl"@.len());
    assert("beta_type"@.len() != "server"@.len());
    assert("beta_type"@.len() != "port"@.len());
    assert("beta_type"@.len() != "loginurl"@.len());
    assert("beta_type"@.len() != "type"@.len());
    assert("beta_type"@.len() != "beta_server"@.len());
    assert("beta_type"@.len() != "beta_loginurl"@.len());
    assert("beta_type"@[5] != "beta_port"@[5]);
    assert("beta2_server"@.len() != "server"@.len());
    assert("beta2_server"@.len() != "port"@.len());
    assert("beta2_server"@.len() != "loginurl"@.len());
    assert("beta2_server"@.len() != "type"@.len());
    assert("beta2_server"@.len() != "beta_server"@.len());
    assert("beta2_server"@.len() != "beta_loginurl"@.len());
    assert("beta2_server"@.len() != "beta_port"@.len());
    assert("beta2_server"@.len() != "beta_type"@.len());
    assert("beta2_loginurl"@.len() != "server"@.len());
    assert("beta2_loginurl"@.len() != "port"@.len());
    assert("beta2_loginurl"@.len() != "loginurl"@.len());
    assert("beta2_loginurl"@.len() != "type"@.len());
    assert("beta2_loginurl"@.len() != "beta_server"@.len());
    assert("beta2_loginurl"@.len() != "beta_loginurl"@.len());
    assert("beta2_loginurl"@.len() != "beta_port"@.len());
    assert("beta2_loginurl"@.len() != "beta_type"@.len());
    assert("beta2_loginurl"@.len() != "beta2_server"@.len());
    assert("beta2_port"@.len() != "server"@.len());
    assert("beta2_port"@.len() != "port"@.len());
    assert("beta2_port"@.len() != "loginurl"@.len());
    assert("beta2_port"@.len() != "type"@.len());
    assert("beta2_port"@.len() != "beta_server"@.len());
    assert("beta2_port"@.len() != "beta_loginurl"@.len());
    assert("beta2_port"@.len() != "beta_port"@.len());
    assert("beta2_port"@.len() != "beta_type"@.len());
    assert("beta2_port"@.len() != "beta2_server"@.len());
    assert("beta2_port"@.len() != "beta2_loginurl"@.len());
    assert("beta2_type"@.len() != "server"@.len());
    assert("beta2_type"@.len() != "port"@.len());
    assert("beta2_type"@.len() != "loginurl"@.len());
    assert("beta2_type"@.len() != "type"@.len());
    assert("beta2_type"@.len() != "beta_server"@.len());
    assert("beta2_type"@.len() != "beta_loginurl"@.len());
    assert("beta2_type"@.len() != "beta_port"@.len());
    assert("beta2_type"@.len() != "beta_type"@.len());
    assert("beta2_type"@.len() != "beta2_server"@.len());
    assert("beta2_type"@.len() != "beta2_loginurl"@.len());
    assert("beta2_type"@[6] != "beta2_port"@[6]);
    assert("beta3_server"@.len() != "server"@.len());
    assert("beta3_server"@.len() != "port"@.len());
    assert("beta3_server"@.len() != "loginurl"@.len());
    assert("beta3_server"@.len() != "type"@.len());
    assert("beta3_server"@.len() != "beta_server"@.len());
    assert("beta3_server"@.len() != "beta_loginurl"@.len());
    assert("beta3_server"@.len() != "beta_port"@.len());
    assert("beta3_server"@.len() != "beta_type"@.len());
    assert("beta3_server"@[4] != "beta2_server"@[4]);
    assert("beta3_server"@.len() != "beta2_loginurl"@.len());
    assert("beta3_server"@.len() != "beta2_port"@.len());
    assert("beta3_server"@.len() != "beta2_type"@.len());
    assert("beta3_loginurl"@.len() != "server"@.len());
    assert("beta3_loginurl"@.len() != "port"@.len());
    assert("beta3_loginurl"@.len() != "loginurl"@.len());
    assert("beta3_loginurl"@.len() != "type"@.len());
    assert("beta3_loginurl"@.len() != "beta_server"@.len());
    assert("beta3_loginurl"@.len() != "beta_loginurl"@.len());
    assert("beta3_loginurl"@.len() != "beta_port"@.len());
    assert("beta3_loginurl"@.len() != "beta_type"@.len());
    assert("beta3_loginurl"@.len() != "beta2_server"@.len());
    assert("beta3_loginurl"@[4] != "beta2_loginurl"@[4]);
    assert("beta3_loginurl"@.len() != "beta2_port"@.len());
    assert("beta3_loginurl"@.len() != "beta2_type"@.len());
    assert("beta3_loginurl"@.len() != "beta3_server"@.len());
    assert("beta3_port"@.len() != "server"@.len());
    assert("beta3_port"@.len() != "port"@.len());
    assert("beta3_port"@.len() != "loginurl"@.len());
    assert("beta3_port"@.len() != "type"@.len());
    assert("beta3_port"@.len() != "beta_server"@.len());
    assert("beta3_port"@.len() != "beta_loginurl"@.len());
    assert("beta3_port"@.len() != "beta_port"@.len());
    assert("beta3_port"@.len() != "beta_type"@.len());
    assert("beta3_port"@.len() != "beta2_server"@.len());
    assert("beta3_port"@.len() != "beta2_loginurl"@.len());
    assert("beta3_port"@[4] != "beta2_port"@[4]);
    assert("beta3_port"@[4] != "beta2_type"@[4]);
    assert("beta3_port"@.len() != "beta3_server"@.len());
    assert("beta3_port"@.len() != "beta3_loginurl"@.len());
    assert("beta3_type"@.len() != "server"@.len());
    assert("beta3_type"@.len() != "port"@.len());
    assert("beta3_type"@.len() != "loginurl"@.len());
    assert("beta3_type"@.len() != "type"@.len());
    assert("beta3_type"@.len() != "beta_server"@.len());
    assert("beta3_type"@.len() != "beta_loginurl"@.len());
    assert("beta3_type"@.len() != "beta_port"@.len());
    assert("beta3_type"@.len() != "beta_type"@.len());
    assert("beta3_type"@.len() != "beta2_server"@.len());
    assert("beta3_type"@.len() != "beta2_loginurl"@.len());
    assert("beta3_type"@[4] != "beta2_port"@[4]);
    assert("beta3_type"@[4] != "beta2_type"@[4]);
    assert("beta3_type"@.len() != "beta3_server"@.len());
    assert("beta3_type"@.len() != "beta3_loginurl"@.len());
    assert("beta3_type"@[6] != "beta3_port"@[6]);
    assert("type2"@.len() != "server"@.len());
    assert("type2"@.len() != "port"@.len());
    assert("type2"@.len() != "loginurl"@.len());
    assert("type2"@.len() != "type"@.len());
    assert("type2"@.len() != "beta_server"@.len());
    assert("type2"@.len() != "beta_loginurl"@.len());
    assert("type2"@.len() != "beta_port"@.len());
    assert("type2"@.len() != "beta_type"@.len());
    assert("type2"@.len() != "beta2_server"@.len());
    assert("type2"@.len() != "beta2_loginurl"@.len());
    assert("type2"@.len() != "beta2_port"@.len());
    assert("type2"@.len() != "beta2_type"@.len());
    assert("type2"@.len() != "beta3_server"@.len());
    assert("type2"@.len() != "beta3_loginurl"@.len());
    assert("type2"@.len() != "beta3_port"@.len());
    assert("type2"@.len() != "beta3_type"@.len());
    assert("#maint"@[0] != "server"@[0]);
    assert("#maint"@.len() != "port"@.len());
    assert("#maint"@.len() != "loginurl"@.len());
    assert("#maint"@.len() != "type"@.len());
    assert("#maint"@.len() != "beta_server"@.len());
    assert("#maint"@.len() != "beta_loginurl"@.len());
    assert("#maint"@.len() != "beta_port"@.len());
    assert("#maint"@.len() != "beta_type"@.len());
    assert("#maint"@.len() != "beta2_server"@.len());
    assert("#maint"@.len() != "beta2_loginurl"@.len());
    assert("#maint"@.len() != "beta2_port"@.len());
    assert("#maint"@.len() != "beta2_type"@.len());
    assert("#maint"@.len() != "beta3_server"@.len());
    assert("#maint"@.len() != "beta3_loginurl"@.len());
    assert("#maint"@.len() != "beta3_port"@.len());
    assert("#maint"@.len() != "beta3_type"@.len());
    assert("#maint"@.len() != "type2"@.len());
    assert("meta"@.len() != "server"@.len());
    assert("meta"@[0] != "port"@[0]);
    assert("meta"@.len() != "loginurl"@.len());
    assert("meta"@[0] != "type"@[0]);
    assert("meta"@.len() != "beta_server"@.len());
    assert("meta"@.len() != "beta_loginurl"@.len());
    assert("meta"@.len() != "beta_port"@.len());
    assert("meta"@.len() != "beta_type"@.len());
    assert("meta"@.len() != "beta2_server"@.len());
    assert("meta"@.len() != "beta2_loginurl"@.len());
    assert("meta"@.len() != "beta2_port"@.len());
    assert("meta"@.len() != "beta2_type"@.len());
    assert("meta"@.len() != "beta3_server"@.len());
    assert("meta"@.len() != "beta3_loginurl"@.len());
    assert("meta"@.len() != "beta3_port"@.len());
    assert("meta"@.len() != "beta3_type"@.len());
    assert("meta"@.len() != "type2"@.len());
    assert("meta"@.len() != "#maint"@.len());
}

/// A one-line answer `port|<p in decimal>` reads as the port `p`, everything
/// else left empty.
pub proof fn law_port_line_reads_back(p: u16)
    ensures
        parse_response("port|"@ + decimal(p as nat)) == Ok::<ServerDataView, IntErrorKind>(
            ServerDataView { port: p, ..empty_server_data() },
        ),
{
    reveal_strlit("port|");
    reveal_strlit("port");
    reveal_strlit("RTENDMARKERBS1001");
    reveal_strlit("server");
    let digits = decimal(p as nat);
    let s = "port|"@ + digits;
    lemma_decimal_digits(p as nat);
    assert(s[0] == 'p' && s[1] == 'o' && s[2] == 'r' && s[3] == 't' && s[4] == '|');
    assert forall|i: int| 5 <= i < s.len() implies is_digit(#[trigger] s[i]) by {
        assert(s[i] == digits[i - 5]);
    }
    assert(find_from(s, '|', 0) == 4) by {
        assert(find_from(s, '|', 4) == 4);
        assert(find_from(s, '|', 3) == 4);
        assert(find_from(s, '|', 2) == 4);
        assert(find_from(s, '|', 1) == 4);
    }
    assert forall|i: int| 0 <= i <= s.len() implies find_from(s, '\n', i) == s.len() by {
        lemma_no_newline(s, i);
    }
    assert(lines(s) == seq![s]);
    assert(!starts_with(s, end_marker())) by {
        if starts_with(s, end_marker()) {
            assert(s.take(17)[0] == end_marker()[0]);
        }
    }
    let key = s.take(4);
    let value = s.skip(5);
    assert(key =~= "port"@);
    assert(value =~= digits);
    assert(split_once(s, '|') == Some((key, value)));
    lemma_trim_keeps(key);
    assert(is_digit(digits[0]) && is_digit(digits.last()));
    lemma_trim_keeps(value);
    assert(field_named("port"@) == Some(Field::Port));
    law_decimal_reads_back(p as nat, 0xffff);
    let d = ServerDataView { port: p, ..empty_server_data() };
    assert(set_field(empty_server_data(), Field::Port, digits) == Ok::<
        ServerDataView,
        IntErrorKind,
    >(d));
    assert(apply_line(empty_server_data(), s) == Ok::<ServerDataView, IntErrorKind>(d));
    assert(seq![s].drop_first() =~= Seq::<Seq<char>>::empty());
    assert(apply_lines(Seq::<Seq<char>>::empty(), d) == Ok::<ServerDataView, IntErrorKind>(d));
}

proof fn lemma_no_newline(s: Seq<char>, i: int)
    requires
        0 <= i <= s.len(),
        forall|k: int| 0 <= k < s.len() ==> s[k] != '\n',
    ensures
        find_from(s, '\n', i) == s.len(),
    decreases s.len() - i,
{
    if i < s.len() {
        lemma_no_newline(s, i + 1);
    }
}

/// Trimming leaves a text that starts and ends with no white space as it is.
proof fn lemma_trim_keeps(t: Seq<char>)
    requires
        t.len() > 0,
        !is_white_space(t[0]),
        !is_white_space(t.last()),
    ensures
        trim(t) == t,
{
}

/// `d` with the port-typed field `value` read as a `u16`.
pub open spec fn with_u16(d: ServerDataView, f: Field, value: Seq<char>) -> Result<
    ServerDataView,
    IntErrorKind,
> {
    match parse_unsigned(value, 0xffff) {
        Ok(n) => Ok(
            match f {
                Field::Port => ServerDataView { port: n as u16, ..d },
                Field::BetaPort => ServerDataView { beta_port: n as u16, ..d },
                Field::Beta2Port => ServerDataView { beta2_port: n as u16, ..d },
                _ => ServerDataView { beta3_port: n as u16, ..d },
            },
        ),
        Err(e) => Err(e),
    }
}

/// `d` with the type-typed field `value` read as a `u8`.
pub open spec fn with_u8(d: ServerDataView, f: Field, value: Seq<char>) -> Result<
    ServerDataView,
    IntErrorKind,
> {
    match parse_unsigned(value, 0xff) {
        Ok(n) => Ok(
            match f {
                Field::Type => ServerDataView { server_type: n as u8, ..d },
                Field::BetaType => ServerDataView { beta_type: n as u8, ..d },
                Field::Beta2Type => ServerDataView { beta2_type: n as u8, ..d },
                Field::Beta3Type => ServerDataView { beta3_type: n as u8, ..d },
                _ => ServerDataView { type2: n as u8, ..d },
            },
        ),
        Err(e) => Err(e),
    }
}

/// `d` with field `f` set from the (trimmed) text `value`.
pub open spec fn set_field(d: ServerDataView, f: Field, value: Seq<char>) -> Result<
    ServerDataView,
    IntErrorKind,
> {
    match f {
        Field::Server => Ok(ServerDataView { server: value, ..d }),
        Field::LoginUrl => Ok(ServerDataView { loginurl: value, ..d }),
        Field::BetaServer => Ok(ServerDataView { beta_server: value, ..d }),
        Field::BetaLoginUrl => Ok(ServerDataView { beta_loginurl: value, ..d }),
        Field::Beta2Server => Ok(ServerDataView { beta2_server: value, ..d }),
        Field::Beta2LoginUrl => Ok(ServerDataView { beta2_loginurl: value, ..d }),
        Field::Beta3Server => Ok(ServerDataView { beta3_server: value, ..d }),
        Field::Beta3LoginUrl => Ok(ServerDataView { beta3_loginurl: value, ..d }),
        Field::Maint => Ok(ServerDataView { maint: Some(value), ..d }),
        Field::Meta => Ok(ServerDataView { meta: value, ..d }),
        Field::Port | Field::BetaPort | Field::Beta2Port | Field::Beta3Port => with_u16(
            d,
            f,
            value,
        ),
        Field::Type | Field::BetaType | Field::Beta2Type | Field::Beta3Type | Field::Type2 =>
            with_u8(d, f, value),
    }
}

/// One line of the answer applied to `d`: `key|value`, both trimmed; a line
/// without `|` or with a key that names no field leaves `d` as it is.
pub open spec fn apply_line(d: ServerDataView, line: Seq<char>) -> Result<
    ServerDataView,
    IntErrorKind,
> {
    match split_once(line, '|') {
        None => Ok(d),
        Some((key, value)) => match field_named(trim(key)) {
            None => Ok(d),
            Some(f) => set_field(d, f, trim(value)),
        },
    }
}

/// The line that ends the answer: it and all after it are not read.
pub open spec fn end_marker() -> Seq<char> {
    "RTENDMARKERBS1001"@
}

/// The lines applied in order onto `d`, up to the first that starts with the
/// end marker; the first failing line ends it with its error.
pub open spec fn apply_lines(ls: Seq<Seq<char>>, d: ServerDataView) -> Result<
    ServerDataView,
    IntErrorKind,
>
    decreases ls.len(),
{
    if ls.len() == 0 {
        Ok(d)
    } else if starts_with(ls[0], end_marker()) {
        Ok(d)
    } else {
        match apply_line(d, ls[0]) {
            Ok(d2) => apply_lines(ls.drop_first(), d2),
            Err(e) => Err(e),
        }
    }
}

/// The server data that the answer `response` describes.
pub open spec fn parse_response(response: Seq<char>) -> Result<ServerDataView, IntErrorKind> {
    apply_lines(lines(response), empty_server_data())
}


/// `response[start..end]` as a `String`.
fn text_between(response: &str, start: usize, end: usize) -> (r: String)
    requires
        start <= end <= response@.len(),
    ensures
        r@ == response@.subrange(start as int, end as int),
{
    String::from_str(response.substring_char(start, end))
}

/// Sets field `f` of `data` from `response[start..end]`, whose chars are `chars[start..end]`.
fn set_field_from(
    data: &mut ServerData,
    f: Field,
    response: &str,
    chars: &Vec<char>,
    start: usize,
    end: usize,
) -> (r: Result<(), IntErrorKind>)
    requires
        start <= end <= chars.len(),
        chars@ == response@,
    ensures
        r matches Ok(_) ==> set_field(old(data)@, f, chars@.subrange(start as int, end as int))
            == Ok::<ServerDataView, IntErrorKind>(final(data)@),
        r matches Err(e) ==> set_field(old(data)@, f, chars@.subrange(start as int, end as int))
            == Err::<ServerDataView, IntErrorKind>(e),
{
    match f {
        Field::Server => data.server = text_between(response, start, end),
        Field::LoginUrl => data.loginurl = text_between(response, start, end),
        Field::BetaServer => data.beta_server = text_between(response, start, end),
        Field::BetaLoginUrl => data.beta_loginurl = text_between(response, start, end),
        Field::Beta2Server => data.beta2_server = text_between(response, start, end),
        Field::Beta2LoginUrl => data.beta2_loginurl = text_between(response, start, end),
        Field::Beta3Server => data.beta3_server = text_between(response, start, end),
        Field::Beta3LoginUrl => data.beta3_loginurl = text_between(response, start, end),
        Field::Maint => data.maint = Some(text_between(response, start, end)),
        Field::Meta => data.meta = text_between(response, start, end),
        Field::Port | Field::BetaPort | Field::Beta2Port | Field::Beta3Port => {
            match parse_unsigned_range(chars, start, end, 0xffff) {
                Ok(n) => {
                    let n = n as u16;
                    match f {
                        Field::Port => data.port = n,
                        Field::BetaPort => data.beta_port = n,
                        Field::Beta2Port => data.beta2_port = n,
                        _ => data.beta3_port = n,
                    }
                },
                Err(e) => {
                    return Err(e);
                },
            }
        },
        Field::Type | Field::BetaType | Field::Beta2Type | Field::Beta3Type | Field::Type2 => {
            match parse_unsigned_range(chars, start, end, 0xff) {
                Ok(n) => {
                    let n = n as u8;
                    match f {
                        Field::Type => data.server_type = n,
                        Field::BetaType => data.beta_type = n,
                        Field::Beta2Type => data.beta2_type = n,
                        Field::Beta3Type => data.beta3_type = n,
                        _ => data.type2 = n,
                    }
                },
                Err(e) => {
                    return Err(e);
                },
            }
        },
    }
    Ok(())
}

impl ServerData {
    /// Reads the directory's answer: one `key|value` per line, up to a line
    /// that starts with the end marker. Keys and values are trimmed; lines
    /// without `|` and unknown keys are passed over; a later line for the
    /// same key wins. Fails at the first numeric field that is no number.
    pub fn parse_from_response(response: &str) -> (r: Result<ServerData, ServerDataError>)
        ensures
            r matches Ok(d) ==> parse_response(response@) == Ok::<ServerDataView, IntErrorKind>(
                d@,
            ),
            r matches Err(e) ==> (e matches ServerDataError::InvalidNumber(k)
                && parse_response(response@) == Err::<ServerDataView, IntErrorKind>(k)),
            parse_response(response@) is Ok <==> r is Ok,
    {
        let chars = chars_of(response);
        let len = chars.len();
        let mut data = ServerData::default();
        let mut pos: usize = 0;
        assert(chars@.subrange(0, len as int) =~= chars@);
        while pos < len
            invariant
                pos <= len == chars@.len(),
                chars@ == response@,
                parse_response(response@) == apply_lines(
                    lines(chars@.subrange(pos as int, len as int)),
                    data@,
                ),
            decreases len - pos,
        {
            let ghost rest = chars@.subrange(pos as int, len as int);
            let nl = find_in_range(&chars, pos, len, '\n');
            proof {
                lemma_find_from_bounds(rest, '\n', 0);
            }
            let line_end = if nl < len && nl > pos && chars[nl - 1] == '\r' {
                nl - 1
            } else {
                nl
            };
            let ghost line = chars@.subrange(pos as int, line_end as int);
            assert(lines(rest)[0] == line) by {
                if nl < len {
                    assert(rest.take(nl - pos) =~= chars@.subrange(pos as int, nl as int));
                    if line_end < nl {
                        assert(chars@.subrange(pos as int, nl as int).drop_last() =~= line);
                    } else {
                        assert(chars@.subrange(pos as int, nl as int) =~= line);
                    }
                } else {
                    assert(rest =~= line);
                }
            }
            if range_starts_with(&chars, pos, line_end, "RTENDMARKERBS1001") {
                return Ok(data);
            }
            let ghost before = data@;
            let bar = find_in_range(&chars, pos, line_end, '|');
            if bar < line_end {
                assert(line.take(bar - pos) =~= chars@.subrange(pos as int, bar as int));
                assert(line.skip(bar - pos + 1) =~= chars@.subrange(bar + 1, line_end as int));
                let (ks, ke) = trim_range(&chars, pos, bar);
                let (vs, ve) = trim_range(&chars, bar + 1, line_end);
                match field_of(&chars, ks, ke) {
                    Some(f) => {
                        match set_field_from(&mut data, f, response, &chars, vs, ve) {
                            Ok(()) => {},
                            Err(e) => {
                                return Err(ServerDataError::InvalidNumber(e));
                            },
                        }
                    },
                    None => {},
                }
            }
            assert(apply_line(before, line) == Ok::<ServerDataView, IntErrorKind>(data@));
            if nl < len {
                assert(lines(rest).drop_first() =~= lines(chars@.subrange(nl + 1, len as int)))
                    by {
                    assert(rest.skip(nl - pos + 1) =~= chars@.subrange(nl + 1, len as int));
                }
                pos = nl + 1;
            } else {
                assert(lines(rest).drop_first() =~= lines(chars@.subrange(len as int, len as int)));
                pos = len;
            }
        }
        Ok(data)
    }
}


/// A private game server to use instead of the official directory.
pub struct GtpsConfig {
    pub host: String,
    pub port: u16,
    pub server_type: u8,
    pub type2: u8,
    pub meta: String,
}

/// The `GTPS_*` settings of the environment: `host` is `GTPS_HOST`, each
/// other field the text of its variable where it is set to valid Unicode.
pub struct GtpsEnv {
    pub host: String,
    pub port: Option<String>,
    pub server_type: Option<String>,
    pub type2: Option<String>,
    pub meta: Option<String>,
}

/// Whether `gtps` names a private server: it is given and its host is not empty.
pub open spec fn gtps_applies(gtps: Option<&GtpsConfig>) -> bool {
    gtps matches Some(cfg) && cfg.host@.len() > 0
}

/// The server data that stands for a private server.
pub open spec fn gtps_server_data(cfg: GtpsConfig) -> ServerDataView {
    ServerDataView {
        server: cfg.host@,
        port: cfg.port,
        server_type: cfg.server_type,
        type2: cfg.type2,
        meta: cfg.meta@,
        ..empty_server_data()
    }
}

/// The number that a setting reads as: the setting parsed as an unsigned
/// number up to `max`, or `default` where it is unset or no such number.
pub open spec fn setting_number(setting: Option<String>, max: nat, default: nat) -> nat {
    match setting {
        Some(s) => match parse_unsigned(s@, max) {
            Ok(n) => n,
            Err(_) => default,
        },
        None => default,
    }
}

/// The server data that the `GTPS_*` environment settings stand for.
pub open spec fn env_server_data(env: GtpsEnv) -> ServerDataView {
    ServerDataView {
        server: env.host@,
        port: setting_number(env.port, 0xffff, 17091) as u16,
        server_type: setting_number(env.server_type, 0xff, 1) as u8,
        type2: setting_number(env.type2, 0xff, 1) as u8,
        meta: match env.meta {
            Some(m) => m@,
            None => "localhost"@,
        },
        ..empty_server_data()
    }
}

/// The official directory, or its alternate.
pub open spec fn server_data_url(alternate: bool) -> Seq<char> {
    if alternate {
        "https://www.growtopia2.com/growtopia/server_data.php"@
    } else {
        "https://www.growtopia1.com/growtopia/server_data.php"@
    }
}

/// The form that is posted to the directory.
pub open spec fn request_body(login_info: LoginInfo) -> Seq<char> {
    "platform=0&"@ + form_data(login_info.protocol, login_info.game_version@)
}

/// The `User-Agent` that the directory is asked with.
pub open spec fn directory_user_agent() -> Seq<char> {
    "UbiServices_SDK_2022.Release.9_PC64_ansi_static"@
}

/// The `Content-Type` of the posted form.
pub open spec fn directory_content_type() -> Seq<char> {
    "application/x-www-form-urlencoded"@
}

/// A request to the official directory, still to be sent: `body` is posted
/// to `url` with these two headers, through `proxy` where there is one.
#[derive(Debug)]
pub struct ServerDataRequest {
    pub url: String,
    pub user_agent: String,
    pub content_type: String,
    pub body: String,
    pub proxy: Option<ureq::Proxy>,
}

/// Where the server data comes from.
#[derive(Debug)]
pub enum ServerDataSource {
    /// Known without asking: the configured private server.
    Direct(ServerData),
    /// Known without asking: the private server of the environment settings.
    DirectEnv(ServerData),
    /// To be asked of the official directory, by posting `body` to `url`,
    /// through `proxy` where there is one; the answer is read by
    /// `ServerData::parse_from_response`.
    Fetch(ServerDataRequest),
}

/// Whether `req` is the request to the directory that `alternate` selects,
/// describing `login_info`.
pub open spec fn is_directory_request(
    req: ServerDataRequest,
    alternate: bool,
    login_info: LoginInfo,
) -> bool {
    &&& req.url@ == server_data_url(alternate)
    &&& req.user_agent@ == directory_user_agent()
    &&& req.content_type@ == directory_content_type()
    &&& req.body@ == request_body(login_info)
}

/// The proxy that `ureq::Proxy::new` builds from `url`.
pub uninterp spec fn proxy_from(url: Seq<char>) -> ureq::Proxy;

/// The proxy that a request to the directory goes through, given the proxy
/// address: none without an address, else the one built from it.
pub open spec fn proxy_for(proxy_url: Option<&str>) -> Option<ureq::Proxy> {
    match proxy_url {
        Some(p) => Some(proxy_from(p@)),
        None => None,
    }
}

/// Whether `ureq::Proxy::new` accepts `url` as a proxy address.
pub uninterp spec fn proxy_url_accepted(url: Seq<char>) -> bool;

#[verifier::external_type_specification]
#[verifier::external_body]
pub struct ExProxy(ureq::Proxy);

#[verifier::external_type_specification]
#[verifier::external_body]
pub struct ExUreqError(ureq::Error);

/// Calls `ureq::Proxy::new`, which parses `url` as a URI and accepts it where
/// it has an authority, user information that percent-decodes to UTF-8 and
/// a known proxy scheme (or none, for `http`); it reads no environment.
/// Claimed: the call succeeds exactly where `proxy_url_accepted` holds, and
/// the proxy it builds is a function of `url` alone, named `proxy_from`.
/// Not claimed: what that proxy holds.
#[verifier::external_body]
fn new_proxy(url: &str) -> (r: Result<ureq::Proxy, ureq::Error>)
    ensures
        r is Ok <==> proxy_url_accepted(url@),
        r matches Ok(p) ==> p == proxy_from(url@),
{
    ureq::Proxy::new(url)
}

fn setting_number_of(setting: &Option<String>, max: u32, default: u32) -> (n: u32)
    requires
        max <= 0xffff,
        default <= max,
    ensures
        n as nat == setting_number(*setting, max as nat, default as nat),
        n <= max,
{
    match setting {
        Some(s) => {
            let chars = chars_of(s.as_str());
            let len = chars.len();
            assert(chars@.subrange(0, len as int) =~= s@);
            match parse_unsigned_range(&chars, 0, len, max) {
                Ok(n) => n,
                Err(_) => default,
            }
        },
        None => default,
    }
}

/// The text of an environment setting, or `default` where it is unset.
fn setting_text(setting: &Option<String>, default: &str) -> (r: String)
    ensures
        r@ == match *setting {
            Some(s) => s@,
            None => default@,
        },
{
    match setting {
        Some(s) => s.clone(),
        None => String::from_str(default),
    }
}

fn server_data_of_gtps(cfg: &GtpsConfig) -> (d: ServerData)
    ensures
        d@ == gtps_server_data(*cfg),
{
    let mut d = ServerData::default();
    d.server = cfg.host.clone();
    d.port = cfg.port;
    d.server_type = cfg.server_type;
    d.type2 = cfg.type2;
    d.meta = cfg.meta.clone();
    d
}

fn server_data_of_env(env: &GtpsEnv) -> (d: ServerData)
    ensures
        d@ == env_server_data(*env),
{
    let mut d = ServerData::default();
    d.server = env.host.clone();
    d.port = setting_number_of(&env.port, 0xffff, 17091) as u16;
    d.server_type = setting_number_of(&env.server_type, 0xff, 1) as u8;
    d.type2 = setting_number_of(&env.type2, 0xff, 1) as u8;
    d.meta = setting_text(&env.meta, "localhost");
    d
}

fn directory_request(alternate: bool, login_info: &LoginInfo, proxy: Option<ureq::Proxy>) -> (r:
    ServerDataRequest)
    ensures
        is_directory_request(r, alternate, *login_info),
        r.proxy == proxy,
{
    let url = if alternate {
        String::from_str("https://www.growtopia2.com/growtopia/server_data.php")
    } else {
        String::from_str("https://www.growtopia1.com/growtopia/server_data.php")
    };
    let mut body = String::from_str("platform=0&");
    let form = login_info.to_form_data();
    body.append(form.as_str());
    ServerDataRequest {
        url,
        user_agent: String::from_str("UbiServices_SDK_2022.Release.9_PC64_ansi_static"),
        content_type: String::from_str("application/x-www-form-urlencoded"),
        body,
        proxy,
    }
}

/// Whether a private server is configured: `gtps` is given with a host.
/// Where it is, the environment settings are not looked at.
pub fn gtps_host_given(gtps: Option<&GtpsConfig>) -> (r: bool)
    ensures
        r == gtps_applies(gtps),
{
    match gtps {
        Some(cfg) => !cfg.host.as_str().is_empty(),
        None => false,
    }
}

/// What `get_server_data_proxied` gives back: a configured private server
/// with a host, else the private server of the environment settings, else
/// the request to the official directory (`alternate` picks which) through
/// the proxy at `proxy_url`, failing where that address is refused.
pub open spec fn server_data_source_is(
    r: Result<ServerDataSource, ServerDataError>,
    alternate: bool,
    login_info: LoginInfo,
    proxy_url: Option<&str>,
    gtps: Option<&GtpsConfig>,
    env: Option<&GtpsEnv>,
) -> bool {
    if gtps_applies(gtps) {
        r matches Ok(ServerDataSource::Direct(d)) && d@ == gtps_server_data(*gtps.unwrap())
    } else if env is Some {
        r matches Ok(ServerDataSource::DirectEnv(d)) && d@ == env_server_data(*env.unwrap())
    } else if proxy_url matches Some(p) && !proxy_url_accepted(p@) {
        r matches Err(ServerDataError::InvalidProxyUrl)
    } else {
        r matches Ok(ServerDataSource::Fetch(req)) && is_directory_request(req, alternate, login_info)
            && req.proxy == proxy_for(proxy_url)
    }
}

/// Decides where the server data comes from: a private server given in
/// `gtps` (with a host), else one given by the environment settings `env`,
/// else the official directory (`alternate` picks which), reached through
/// the proxy at `proxy_url` where one is given.
pub fn get_server_data_proxied(
    alternate: bool,
    login_info: &LoginInfo,
    proxy_url: Option<&str>,
    gtps: Option<&GtpsConfig>,
    env: Option<&GtpsEnv>,
) -> (r: Result<ServerDataSource, ServerDataError>)
    ensures
        server_data_source_is(r, alternate, *login_info, proxy_url, gtps, env),
{
    if gtps_host_given(gtps) {
        return Ok(ServerDataSource::Direct(server_data_of_gtps(gtps.unwrap())));
    }
    if let Some(e) = env {
        return Ok(ServerDataSource::DirectEnv(server_data_of_env(e)));
    }
    let proxy = match proxy_url {
        Some(p) => match new_proxy(p) {
            Ok(proxy) => Some(proxy),
            Err(_) => {
                return Err(ServerDataError::InvalidProxyUrl);
            },
        },
        None => None,
    };
    Ok(ServerDataSource::Fetch(directory_request(alternate, login_info, proxy)))
}

/// `get_server_data_proxied` with no proxy.
pub fn get_server_data(
    alternate: bool,
    login_info: &LoginInfo,
    gtps: Option<&GtpsConfig>,
    env: Option<&GtpsEnv>,
) -> (r: Result<ServerDataSource, ServerDataError>)
    ensures
        server_data_source_is(r, alternate, *login_info, None, gtps, env),
{
    get_server_data_proxied(alternate, login_info, None, gtps, env)
}

/// A configured private server with a host is the answer whatever the
/// environment settings, the proxy or the directory choice: its host, port,
/// types and meta text, with every other field empty.
pub proof fn law_configured_server_wins(
    r: Result<ServerDataSource, ServerDataError>,
    alternate: bool,
    login_info: LoginInfo,
    proxy_url: Option<&str>,
    cfg: &GtpsConfig,
    env: Option<&GtpsEnv>,
    other_env: Option<&GtpsEnv>,
)
    requires
        cfg.host@.len() > 0,
        server_data_source_is(r, alternate, login_info, proxy_url, Some(cfg), env),
    ensures
        server_data_source_is(r, alternate, login_info, proxy_url, Some(cfg), other_env),
        r matches Ok(ServerDataSource::Direct(d)) && d.server@ == cfg.host@ && d.port == cfg.port
            && d.server_type == cfg.server_type && d.type2 == cfg.type2 && d.meta@ == cfg.meta@
            && d.loginurl@.len() == 0 && d.maint is None && d.beta_port == 0,
{
}

/// Where no private server is configured but the environment names one, the
/// answer is that server: `GTPS_PORT`, `GTPS_TYPE` and `GTPS_TYPE2` read as
/// numbers where they are ones of their type (else 17091, 1 and 1), and
/// `GTPS_META` as it is (else `localhost`).
pub proof fn law_environment_server(
    r: Result<ServerDataSource, ServerDataError>,
    alternate: bool,
    login_info: LoginInfo,
    proxy_url: Option<&str>,
    gtps: Option<&GtpsConfig>,
    env: &GtpsEnv,
)
    requires
        !gtps_applies(gtps),
        server_data_source_is(r, alternate, login_info, proxy_url, gtps, Some(env)),
    ensures
        r is Ok && r->Ok_0 is DirectEnv,
        r->Ok_0->DirectEnv_0.server@ == env.host@,
        env.port is Some && parse_unsigned(env.port->Some_0@, 0xffff) is Ok
            ==> r->Ok_0->DirectEnv_0.port == parse_unsigned(env.port->Some_0@, 0xffff)->Ok_0,
        env.port is None || (env.port matches Some(s) && parse_unsigned(s@, 0xffff) is Err)
            ==> r->Ok_0->DirectEnv_0.port == 17091,
        env.server_type is Some && parse_unsigned(env.server_type->Some_0@, 0xff) is Ok
            ==> r->Ok_0->DirectEnv_0.server_type == parse_unsigned(env.server_type->Some_0@, 0xff)->Ok_0,
        env.server_type is None || (env.server_type matches Some(s) && parse_unsigned(s@, 0xff)
            is Err) ==> r->Ok_0->DirectEnv_0.server_type == 1,
        env.type2 is Some && parse_unsigned(env.type2->Some_0@, 0xff) is Ok
            ==> r->Ok_0->DirectEnv_0.type2 == parse_unsigned(env.type2->Some_0@, 0xff)->Ok_0,
        env.type2 is None || (env.type2 matches Some(s) && parse_unsigned(s@, 0xff) is Err)
            ==> r->Ok_0->DirectEnv_0.type2 == 1,
        env.meta matches Some(m) ==> r->Ok_0->DirectEnv_0.meta@ == m@,
        env.meta is None ==> r->Ok_0->DirectEnv_0.meta@ == "localhost"@,
{
    let d = r->Ok_0->DirectEnv_0;
    assert(d@ == env_server_data(*env));
    if let Some(s) = env.port {
        lemma_parse_unsigned_bound(s@, 0xffff);
        if let Ok(n) = parse_unsigned(s@, 0xffff) {
            assert(setting_number(env.port, 0xffff, 17091) == n);
            assert((n as u16) as nat == n);
        }
    }
    if let Some(s) = env.server_type {
        lemma_parse_unsigned_bound(s@, 0xff);
    }
    if let Some(s) = env.type2 {
        lemma_parse_unsigned_bound(s@, 0xff);
        if let Ok(n) = parse_unsigned(s@, 0xff) {
            assert(setting_number(env.type2, 0xff, 1) == n);
            assert((n as u8) as nat == n);
        }
    }
}

/// A setting written as a number in decimal is read as that number: a
/// `GTPS_TYPE` of `n` (up to 255) gives the server type `n`.
pub proof fn law_environment_type_reads_back(
    r: Result<ServerDataSource, ServerDataError>,
    alternate: bool,
    login_info: LoginInfo,
    proxy_url: Option<&str>,
    gtps: Option<&GtpsConfig>,
    env: &GtpsEnv,
    n: u8,
)
    requires
        !gtps_applies(gtps),
        server_data_source_is(r, alternate, login_info, proxy_url, gtps, Some(env)),
        env.server_type matches Some(s) && s@ == decimal(n as nat),
    ensures
        r matches Ok(ServerDataSource::DirectEnv(d)) && d.server_type == n,
{
    law_decimal_reads_back(n as nat, 0xff);
    law_environment_server(r, alternate, login_info, proxy_url, gtps, env);
}

/// A configured private server without a host counts as none: the answer is
/// what the same call without a configuration may give.
pub proof fn law_empty_host_is_no_server(
    r: Result<ServerDataSource, ServerDataError>,
    alternate: bool,
    login_info: LoginInfo,
    proxy_url: Option<&str>,
    cfg: &GtpsConfig,
    env: Option<&GtpsEnv>,
)
    requires
        cfg.host@.len() == 0,
    ensures
        server_data_source_is(r, alternate, login_info, proxy_url, Some(cfg), env)
            == server_data_source_is(r, alternate, login_info, proxy_url, None, env),
{
}

} // verus!
