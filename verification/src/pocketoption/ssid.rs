//! Session identifiers (SSID) of PocketOption: how an `auth` message is
//! framed, read and classified as a demo or a real session.

use vstd::prelude::*;

use crate::json::{JsonModel, JsonValue, parse_json, json_parse, model_get, member_get, str_equal};
use crate::numbers::{decimal_text, number_as_u64, parse_u32, spec_number_as_u64, spec_parse_u32, u32_text, u64_text};
use crate::text::{
    chars_of, contains, ends_with, seq_contains, seq_ends_with, seq_starts_with, slice_chars,
    starts_with, string_of, trim_chars, trim_seq,
};

verus! {

/// A field of the `auth` payload.
#[derive(Debug, Clone, Copy, PartialEq, Eq)]
pub enum AuthField {
    Session,
    IsDemo,
    Uid,
    Platform,
    CurrentUrl,
    IsFastHistory,
    IsOptimized,
}

/// Why an SSID was refused.
#[derive(Debug)]
pub enum SsidError {
    /// The SSID, or its payload, is itself a quoted string.
    DoubleEncoding,
    /// The `42["auth",` frame is not closed by `]`.
    MissingClosingBracket,
    /// The payload is not JSON.
    InvalidJson,
    /// The payload is JSON but not an object.
    NotAnObject,
    /// A required field is absent.
    MissingField(AuthField),
    /// A field holds a value of the wrong kind.
    InvalidField(AuthField),
    /// A field is given twice (under its name and its alias).
    DuplicateField(AuthField),
    /// The user id is a number but not a non-negative integer that fits in
    /// 64 bits.
    InvalidUidNumber,
    /// The user id is a string that does not read as a `u32`.
    InvalidUidString,
    /// The user id is neither a number nor a string.
    InvalidUidType,
    /// The session of a real account could not be decoded, even without
    /// its trailing hash; the decoder's message.
    SessionData(String),
    /// The session of a real account could not be decoded and is too short
    /// to carry a trailing hash.
    SessionDataUnreadable,
}

/// The PHP-serialized session of a live account.
#[derive(Clone)]
pub struct SessionData {
    pub session_id: String,
    pub ip_address: String,
    pub user_agent: String,
    pub last_activity: u64,
}

/// A demo session, and the fields that every `auth` payload carries.
pub struct Demo {
    pub session: String,
    pub is_demo: u32,
    pub uid: u32,
    pub platform: u32,
    pub current_url: Option<String>,
    pub is_fast_history: Option<bool>,
    pub is_optimized: Option<bool>,
    /// The whole `42["auth",...]` message.
    pub raw: String,
    /// The JSON payload of the message.
    pub json_raw: String,
    /// The members of the payload that no field above takes.
    pub extra: Vec<(String, JsonValue)>,
}

/// A live-account session.
pub struct Real {
    pub session: SessionData,
    pub session_raw: String,
    pub is_demo: u32,
    pub uid: u32,
    pub platform: u32,
    pub raw: String,
    pub json_raw: String,
    pub is_fast_history: Option<bool>,
    pub is_optimized: Option<bool>,
    pub extra: Vec<(String, JsonValue)>,
}

/// A parsed SSID.
pub enum Ssid {
    Demo(Demo),
    Real(Real),
}

/// The plain form of an optional string.
pub open spec fn opt_seq(s: Option<String>) -> Option<Seq<char>> {
    match s {
        Some(x) => Some(x@),
        None => None,
    }
}

/// The plain form of the extra members.
pub open spec fn members_view(e: Seq<(String, JsonValue)>) -> Seq<(Seq<char>, JsonModel)> {
    Seq::new(e.len(), |i: int| (e[i].0@, e[i].1@))
}

/// The plain form of a [`Demo`].
pub struct DemoView {
    pub session: Seq<char>,
    pub is_demo: u32,
    pub uid: u32,
    pub platform: u32,
    pub current_url: Option<Seq<char>>,
    pub is_fast_history: Option<bool>,
    pub is_optimized: Option<bool>,
    pub raw: Seq<char>,
    pub json_raw: Seq<char>,
    pub extra: Seq<(Seq<char>, JsonModel)>,
}

impl View for Demo {
    type V = DemoView;

    open spec fn view(&self) -> DemoView {
        DemoView {
            session: self.session@,
            is_demo: self.is_demo,
            uid: self.uid,
            platform: self.platform,
            current_url: opt_seq(self.current_url),
            is_fast_history: self.is_fast_history,
            is_optimized: self.is_optimized,
            raw: self.raw@,
            json_raw: self.json_raw@,
            extra: members_view(self.extra@),
        }
    }
}

/// The plain form of a [`SessionData`].
pub struct SessionDataView {
    pub session_id: Seq<char>,
    pub ip_address: Seq<char>,
    pub user_agent: Seq<char>,
    pub last_activity: u64,
}

impl View for SessionData {
    type V = SessionDataView;

    open spec fn view(&self) -> SessionDataView {
        SessionDataView {
            session_id: self.session_id@,
            ip_address: self.ip_address@,
            user_agent: self.user_agent@,
            last_activity: self.last_activity,
        }
    }
}

/// The plain form of a [`Real`].
pub struct RealView {
    pub session: SessionDataView,
    pub session_raw: Seq<char>,
    pub is_demo: u32,
    pub uid: u32,
    pub platform: u32,
    pub raw: Seq<char>,
    pub json_raw: Seq<char>,
    pub is_fast_history: Option<bool>,
    pub is_optimized: Option<bool>,
    pub extra: Seq<(Seq<char>, JsonModel)>,
}

impl View for Real {
    type V = RealView;

    open spec fn view(&self) -> RealView {
        RealView {
            session: self.session@,
            session_raw: self.session_raw@,
            is_demo: self.is_demo,
            uid: self.uid,
            platform: self.platform,
            raw: self.raw@,
            json_raw: self.json_raw@,
            is_fast_history: self.is_fast_history,
            is_optimized: self.is_optimized,
            extra: members_view(self.extra@),
        }
    }
}

/// The plain form of an [`Ssid`].
pub enum SsidView {
    Demo(DemoView),
    Real(RealView),
}

impl View for Ssid {
    type V = SsidView;

    open spec fn view(&self) -> SsidView {
        match self {
            Ssid::Demo(d) => SsidView::Demo(d@),
            Ssid::Real(r) => SsidView::Real(r@),
        }
    }
}

/// The head of an `auth` message: `42["auth",`.
pub open spec fn auth_prefix() -> Seq<char> {
    seq!['4', '2', '[', '"', 'a', 'u', 't', 'h', '"', ',']
}

/// A text that is itself a quoted string: it starts and ends with `"`, or
/// starts with `'`.
pub open spec fn is_double_encoded(t: Seq<char>) -> bool {
    t.len() > 0 && ((t[0] == '"' && t.last() == '"') || t[0] == '\'')
}

/// How an SSID text is framed: the whole `auth` message and its JSON
/// payload, or why the text is refused before its payload is read.
pub open spec fn spec_frame(data: Seq<char>) -> Result<(Seq<char>, Seq<char>), SsidError> {
    let t = trim_seq(data);
    if is_double_encoded(t) {
        Err(SsidError::DoubleEncoding)
    } else if seq_starts_with(t, auth_prefix()) && !seq_ends_with(t.skip(10), seq![']']) {
        Err(SsidError::MissingClosingBracket)
    } else {
        let payload = if seq_starts_with(t, auth_prefix()) { t.skip(10).drop_last() } else { t };
        let raw = if seq_starts_with(t, auth_prefix()) { t } else { auth_prefix() + t + seq![']'] };
        if is_double_encoded(payload) {
            Err(SsidError::DoubleEncoding)
        } else {
            Ok((raw, payload))
        }
    }
}

fn auth_prefix_chars() -> (r: Vec<char>)
    ensures
        r@ == auth_prefix(),
{
    let r = vec!['4', '2', '[', '"', 'a', 'u', 't', 'h', '"', ','];
    assert(r@ =~= auth_prefix());
    r
}

fn double_encoded(t: &[char]) -> (r: bool)
    ensures
        r == is_double_encoded(t@),
{
    t.len() > 0 && ((t[0] == '"' && t[t.len() - 1] == '"') || t[0] == '\'')
}

/// Splits an SSID text into the whole `auth` message and its JSON payload.
pub fn frame(data: &str) -> (r: Result<(String, String), SsidError>)
    ensures
        match r {
            Ok((raw, payload)) => spec_frame(data@) == Ok::<_, SsidError>((raw@, payload@)),
            Err(e) => spec_frame(data@) == Err::<(Seq<char>, Seq<char>), _>(e),
        },
{
    let chars = chars_of(data);
    let t = trim_chars(&chars);
    if double_encoded(&t) {
        return Err(SsidError::DoubleEncoding);
    }
    let prefix = auth_prefix_chars();
    let framed = starts_with(&t, &prefix);
    let payload: Vec<char>;
    let raw: Vec<char>;
    if framed {
        let rest = slice_chars(&t, 10, t.len());
        assert(rest@ =~= t@.skip(10));
        let close = vec![']'];
        if !ends_with(&rest, &close) {
            assert(close@ =~= seq![']']);
            return Err(SsidError::MissingClosingBracket);
        }
        assert(close@ =~= seq![']']);
        payload = slice_chars(&rest, 0, rest.len() - 1);
        assert(payload@ =~= t@.skip(10).drop_last());
        raw = t;
    } else {
        let mut w = prefix;
        let mut i: usize = 0;
        while i < t.len()
            invariant
                i <= t.len(),
                w@ =~= auth_prefix() + t@.take(i as int),
            decreases t.len() - i,
        {
            w.push(t[i]);
            i = i + 1;
        }
        w.push(']');
        assert(t@.take(t.len() as int) =~= t@);
        assert(w@ =~= auth_prefix() + t@ + seq![']']);
        raw = w;
        payload = t;
    }
    if double_encoded(&payload) {
        return Err(SsidError::DoubleEncoding);
    }
    Ok((string_of(&raw), string_of(&payload)))
}


/// The keys that a field of the payload takes; the others go to `extra`.
pub open spec fn is_field_key(k: Seq<char>) -> bool {
    ||| k == "session"@
    ||| k == "sessionToken"@
    ||| k == "isDemo"@
    ||| k == "uid"@
    ||| k == "platform"@
    ||| k == "currentUrl"@
    ||| k == "isFastHistory"@
    ||| k == "isOptimized"@
}

/// The session token: under `session` or its alias `sessionToken`, a string.
pub open spec fn spec_session_field(m: Seq<(Seq<char>, JsonModel)>) -> Result<Seq<char>, SsidError> {
    let a = member_get(m, "session"@);
    let b = member_get(m, "sessionToken"@);
    if a is Some && b is Some {
        Err(SsidError::DuplicateField(AuthField::Session))
    } else {
        match (if a is Some { a } else { b }) {
            None => Err(SsidError::MissingField(AuthField::Session)),
            Some(JsonModel::Str(s)) => Ok(s),
            Some(_) => Err(SsidError::InvalidField(AuthField::Session)),
        }
    }
}

/// A 32-bit unsigned field that defaults to 0 when absent.
pub open spec fn spec_u32_field(v: Option<JsonModel>, f: AuthField) -> Result<u32, SsidError> {
    match v {
        None => Ok(0),
        Some(JsonModel::Number(t)) => match spec_number_as_u64(t) {
            Some(x) => if x <= u32::MAX { Ok(x as u32) } else { Err(SsidError::InvalidField(f)) },
            None => Err(SsidError::InvalidField(f)),
        },
        Some(_) => Err(SsidError::InvalidField(f)),
    }
}

/// The user id: a non-negative integer (cut to its low 32 bits) or a
/// string that reads as a `u32`; each other kind of value has an error of
/// its own.
pub open spec fn spec_uid_field(v: Option<JsonModel>) -> Result<u32, SsidError> {
    match v {
        None => Err(SsidError::MissingField(AuthField::Uid)),
        Some(JsonModel::Number(t)) => match spec_number_as_u64(t) {
            Some(x) => Ok(x as u32),
            None => Err(SsidError::InvalidUidNumber),
        },
        Some(JsonModel::Str(s)) => match spec_parse_u32(s) {
            Some(x) => Ok(x),
            None => Err(SsidError::InvalidUidString),
        },
        Some(_) => Err(SsidError::InvalidUidType),
    }
}

/// An optional string field: absent or `null` give nothing.
pub open spec fn spec_opt_str_field(v: Option<JsonModel>, f: AuthField) -> Result<Option<Seq<char>>, SsidError> {
    match v {
        None => Ok(None),
        Some(JsonModel::Null) => Ok(None),
        Some(JsonModel::Str(s)) => Ok(Some(s)),
        Some(_) => Err(SsidError::InvalidField(f)),
    }
}

/// An optional boolean field: absent or `null` give nothing.
pub open spec fn spec_opt_bool_field(v: Option<JsonModel>, f: AuthField) -> Result<Option<bool>, SsidError> {
    match v {
        None => Ok(None),
        Some(JsonModel::Null) => Ok(None),
        Some(JsonModel::Bool(b)) => Ok(Some(b)),
        Some(_) => Err(SsidError::InvalidField(f)),
    }
}

/// The members that no field takes, in order.
pub open spec fn spec_extra(m: Seq<(Seq<char>, JsonModel)>) -> Seq<(Seq<char>, JsonModel)> {
    m.filter(|e: (Seq<char>, JsonModel)| !is_field_key(e.0))
}

/// The `auth` record read from a JSON payload whose members are `m`, with
/// the given frame.
pub open spec fn spec_auth_fields(
    m: Seq<(Seq<char>, JsonModel)>,
    raw: Seq<char>,
    json_raw: Seq<char>,
) -> Result<DemoView, SsidError> {
    match spec_session_field(m) {
        Err(e) => Err(e),
        Ok(session) => match spec_u32_field(member_get(m, "isDemo"@), AuthField::IsDemo) {
            Err(e) => Err(e),
            Ok(is_demo) => match spec_uid_field(member_get(m, "uid"@)) {
                Err(e) => Err(e),
                Ok(uid) => match spec_u32_field(member_get(m, "platform"@), AuthField::Platform) {
                    Err(e) => Err(e),
                    Ok(platform) => match spec_opt_str_field(member_get(m, "currentUrl"@), AuthField::CurrentUrl) {
                        Err(e) => Err(e),
                        Ok(current_url) => match spec_opt_bool_field(member_get(m, "isFastHistory"@), AuthField::IsFastHistory) {
                            Err(e) => Err(e),
                            Ok(is_fast_history) => match spec_opt_bool_field(member_get(m, "isOptimized"@), AuthField::IsOptimized) {
                                Err(e) => Err(e),
                                Ok(is_optimized) => Ok(DemoView {
                                    session,
                                    is_demo,
                                    uid,
                                    platform,
                                    current_url,
                                    is_fast_history,
                                    is_optimized,
                                    raw,
                                    json_raw,
                                    extra: spec_extra(m),
                                }),
                            },
                        },
                    },
                },
            },
        },
    }
}

/// What reading an SSID text gives: its `auth` record, or why it is refused.
pub open spec fn spec_parse_auth(data: Seq<char>) -> Result<DemoView, SsidError> {
    match spec_frame(data) {
        Err(e) => Err(e),
        Ok((raw, payload)) => match json_parse(payload) {
            None => Err(SsidError::InvalidJson),
            Some(JsonModel::Object(m)) => spec_auth_fields(m, raw, payload),
            Some(_) => Err(SsidError::NotAnObject),
        },
    }
}

fn session_field(obj: &JsonValue) -> (r: Result<String, SsidError>)
    requires
        obj@ is Object,
    ensures
        match r {
            Ok(s) => spec_session_field(obj@->Object_0) == Ok::<_, SsidError>(s@),
            Err(e) => spec_session_field(obj@->Object_0) == Err::<Seq<char>, _>(e),
        },
{
    let a = obj.get("session");
    let b = obj.get("sessionToken");
    if a.is_some() && b.is_some() {
        return Err(SsidError::DuplicateField(AuthField::Session));
    }
    let v = if a.is_some() { a } else { b };
    match v {
        None => Err(SsidError::MissingField(AuthField::Session)),
        Some(JsonValue::Str(s)) => Ok(s.clone()),
        Some(_) => Err(SsidError::InvalidField(AuthField::Session)),
    }
}

fn u32_field(v: Option<&JsonValue>, f: AuthField) -> (r: Result<u32, SsidError>)
    ensures
        match r {
            Ok(x) => spec_u32_field(opt_ref_model(v), f) == Ok::<_, SsidError>(x),
            Err(e) => spec_u32_field(opt_ref_model(v), f) == Err::<u32, _>(e),
        },
{
    match v {
        None => Ok(0),
        Some(JsonValue::Number(t)) => {
            let chars = chars_of(t.as_str());
            match number_as_u64(&chars) {
                Some(x) => if x <= 0xffff_ffff { Ok(x as u32) } else { Err(SsidError::InvalidField(f)) },
                None => Err(SsidError::InvalidField(f)),
            }
        },
        Some(_) => Err(SsidError::InvalidField(f)),
    }
}

fn uid_field(v: Option<&JsonValue>) -> (r: Result<u32, SsidError>)
    ensures
        match r {
            Ok(x) => spec_uid_field(opt_ref_model(v)) == Ok::<_, SsidError>(x),
            Err(e) => spec_uid_field(opt_ref_model(v)) == Err::<u32, _>(e),
        },
{
    match v {
        None => Err(SsidError::MissingField(AuthField::Uid)),
        Some(JsonValue::Number(t)) => {
            let chars = chars_of(t.as_str());
            match number_as_u64(&chars) {
                Some(x) => Ok(x as u32),
                None => Err(SsidError::InvalidUidNumber),
            }
        },
        Some(JsonValue::Str(s)) => {
            let chars = chars_of(s.as_str());
            match parse_u32(&chars) {
                Some(x) => Ok(x),
                None => Err(SsidError::InvalidUidString),
            }
        },
        Some(_) => Err(SsidError::InvalidUidType),
    }
}

fn opt_str_field(v: Option<&JsonValue>, f: AuthField) -> (r: Result<Option<String>, SsidError>)
    ensures
        match r {
            Ok(x) => spec_opt_str_field(opt_ref_model(v), f) == Ok::<_, SsidError>(opt_seq(x)),
            Err(e) => spec_opt_str_field(opt_ref_model(v), f) == Err::<Option<Seq<char>>, _>(e),
        },
{
    match v {
        None => Ok(None),
        Some(JsonValue::Null) => Ok(None),
        Some(JsonValue::Str(s)) => Ok(Some(s.clone())),
        Some(_) => Err(SsidError::InvalidField(f)),
    }
}

fn opt_bool_field(v: Option<&JsonValue>, f: AuthField) -> (r: Result<Option<bool>, SsidError>)
    ensures
        match r {
            Ok(x) => spec_opt_bool_field(opt_ref_model(v), f) == Ok::<_, SsidError>(x),
            Err(e) => spec_opt_bool_field(opt_ref_model(v), f) == Err::<Option<bool>, _>(e),
        },
{
    match v {
        None => Ok(None),
        Some(JsonValue::Null) => Ok(None),
        Some(JsonValue::Bool(b)) => Ok(Some(*b)),
        Some(_) => Err(SsidError::InvalidField(f)),
    }
}

/// The model of an optional borrowed value.
pub open spec fn opt_ref_model(v: Option<&JsonValue>) -> Option<JsonModel> {
    match v {
        Some(x) => Some(x@),
        None => None,
    }
}

fn is_field_key_str(k: &str) -> (r: bool)
    ensures
        r == is_field_key(k@),
{
    str_equal(k, "session") || str_equal(k, "sessionToken") || str_equal(k, "isDemo")
        || str_equal(k, "uid") || str_equal(k, "platform") || str_equal(k, "currentUrl")
        || str_equal(k, "isFastHistory") || str_equal(k, "isOptimized")
}

#[verifier::loop_isolation(false)]
fn copy_json(v: &JsonValue) -> (r: JsonValue)
    ensures
        r@ == v@,
    decreases v,
{
    match v {
        JsonValue::Null => JsonValue::Null,
        JsonValue::Bool(b) => JsonValue::Bool(*b),
        JsonValue::Number(n) => JsonValue::Number(n.clone()),
        JsonValue::Str(s) => JsonValue::Str(s.clone()),
        JsonValue::Array(a) => {
            let mut out: Vec<JsonValue> = Vec::new();
            let mut i: usize = 0;
            while i < a.len()
                invariant
                    i <= a.len(),
                    out.len() == i,
                    forall|j: int| 0 <= j < i ==> (#[trigger] out@[j])@ == a@[j]@,
                decreases a.len() - i,
            {
                proof {
                    assert(decreases_to!(v => a@[i as int]));
                }
                out.push(copy_json(&a[i]));
                i = i + 1;
            }
            let r = JsonValue::Array(out);
            assert(r@->Array_0 =~= v@->Array_0);
            r
        },
        JsonValue::Object(o) => {
            let mut out: Vec<(String, JsonValue)> = Vec::new();
            let mut i: usize = 0;
            while i < o.len()
                invariant
                    i <= o.len(),
                    out.len() == i,
                    forall|j: int| 0 <= j < i ==> (#[trigger] out@[j]).0@ == o@[j].0@ && out@[j].1@ == o@[j].1@,
                decreases o.len() - i,
            {
                proof {
                    assert(decreases_to!(v => o@[i as int].1));
                }
                out.push((o[i].0.clone(), copy_json(&o[i].1)));
                i = i + 1;
            }
            let r = JsonValue::Object(out);
            assert(r@->Object_0 =~= v@->Object_0);
            r
        },
    }
}


fn extra_members(obj: &JsonValue) -> (r: Vec<(String, JsonValue)>)
    requires
        obj@ is Object,
    ensures
        members_view(r@) == spec_extra(obj@->Object_0),
{
    match obj {
        JsonValue::Object(o) => {
            let ghost m = obj@->Object_0;
            assert(m.len() == o.len());
            assert forall|j: int| 0 <= j < o.len() implies #[trigger] m[j] == (o@[j].0@, o@[j].1@) by {}
            let ghost keep = |e: (Seq<char>, JsonModel)| !is_field_key(e.0);
            let mut out: Vec<(String, JsonValue)> = Vec::new();
            let mut i: usize = 0;
            assert(m.take(0).filter(keep) =~= Seq::<(Seq<char>, JsonModel)>::empty());
            while i < o.len()
                invariant
                    i <= o.len(),
                    m.len() == o.len(),
                    forall|j: int| 0 <= j < o.len() ==> #[trigger] m[j] == (o@[j].0@, o@[j].1@),
                    members_view(out@) =~= m.take(i as int).filter(keep),
                    keep == (|e: (Seq<char>, JsonModel)| !is_field_key(e.0)),
                decreases o.len() - i,
            {
                proof {
                    reveal_with_fuel(Seq::<_>::filter, 1);
                    assert(m.take(i + 1).drop_last() =~= m.take(i as int));
                    assert(m.take(i + 1).last() == m[i as int]);
                    assert(m.take(i + 1).filter(keep) == if keep(m[i as int]) {
                        m.take(i as int).filter(keep).push(m[i as int])
                    } else {
                        m.take(i as int).filter(keep)
                    });
                    assert(m[i as int].0 == o@[i as int].0@);
                }
                let ghost before = out@;
                if !is_field_key_str(o[i].0.as_str()) {
                    out.push((o[i].0.clone(), copy_json(&o[i].1)));
                    assert(members_view(out@) =~= members_view(before).push(m[i as int]));
                    assert(keep(m[i as int]));
                    assert(members_view(out@) =~= m.take(i + 1).filter(keep));
                } else {
                    assert(!keep(m[i as int]));
                    assert(members_view(out@) =~= m.take(i + 1).filter(keep));
                }
                i = i + 1;
            }
            assert(m.take(o.len() as int) =~= m);
            out
        },
        _ => Vec::new(),
    }
}

/// Reads an SSID text: frames it, parses its JSON payload and takes the
/// fields of the `auth` record from it.
pub fn parse_auth(data: &str) -> (r: Result<Demo, SsidError>)
    ensures
        match r {
            Ok(d) => spec_parse_auth(data@) == Ok::<_, SsidError>(d@),
            Err(e) => spec_parse_auth(data@) == Err::<DemoView, _>(e),
        },
{
    let (raw, payload) = frame(data)?;
    let json = match parse_json(payload.as_str()) {
        None => return Err(SsidError::InvalidJson),
        Some(j) => j,
    };
    auth_fields(&json, raw, payload)
}

/// Takes the fields of the `auth` record from its parsed JSON payload
/// `obj`, which came in the message `raw` as the text `json_raw`.
pub fn auth_fields(obj: &JsonValue, raw: String, json_raw: String) -> (r: Result<Demo, SsidError>)
    ensures
        match obj@ {
            JsonModel::Object(m) => match spec_auth_fields(m, raw@, json_raw@) {
                Ok(d) => r matches Ok(x) && x@ == d,
                Err(e) => r matches Err(x) && x == e,
            },
            _ => r matches Err(SsidError::NotAnObject),
        },
{
    match obj {
        JsonValue::Object(_) => {},
        _ => {
            return Err(SsidError::NotAnObject);
        },
    }
    let session = session_field(obj)?;
    let is_demo = u32_field(obj.get("isDemo"), AuthField::IsDemo)?;
    let uid = uid_field(obj.get("uid"))?;
    let platform = u32_field(obj.get("platform"), AuthField::Platform)?;
    let current_url = opt_str_field(obj.get("currentUrl"), AuthField::CurrentUrl)?;
    let is_fast_history = opt_bool_field(obj.get("isFastHistory"), AuthField::IsFastHistory)?;
    let is_optimized = opt_bool_field(obj.get("isOptimized"), AuthField::IsOptimized)?;
    let extra = extra_members(obj);
    Ok(Demo {
        session,
        is_demo,
        uid,
        platform,
        current_url,
        is_fast_history,
        is_optimized,
        raw,
        json_raw,
        extra,
    })
}


/// The user agent reported for demo sessions.
pub open spec fn demo_user_agent() -> Seq<char> {
    "Mozilla/5.0 (Windows NT 10.0; Win64; x64) AppleWebKit/537.36 (KHTML, like Gecko) Chrome/132.0.0.0 Safari/537.36"@
}

/// The length of a session's hash suffix, in bytes.
pub open spec fn hash_suffix_len() -> nat {
    32
}

/// An `auth` record denotes a demo session when its `isDemo` flag is 1 or
/// its current URL mentions `demo`.
pub open spec fn is_demo_record(d: DemoView) -> bool {
    d.is_demo == 1 || (d.current_url matches Some(u) && seq_contains(u, "demo"@))
}

/// The live session made of an `auth` record and its decoded session.
pub open spec fn real_of(d: DemoView, s: SessionDataView) -> RealView {
    RealView {
        session: s,
        session_raw: d.session,
        is_demo: d.is_demo,
        uid: d.uid,
        platform: d.platform,
        raw: d.raw,
        json_raw: d.json_raw,
        is_fast_history: d.is_fast_history,
        is_optimized: d.is_optimized,
        extra: d.extra,
    }
}

/// The bytes that the session decoder is given a second time when the whole
/// session does not decode: the session without its hash suffix.
pub open spec fn spec_session_retry_bytes(session: Seq<char>) -> Option<Seq<u8>> {
    let b = vstd::utf8::encode_utf8(session);
    if b.len() > hash_suffix_len() {
        Some(b.take(b.len() - hash_suffix_len()))
    } else {
        None
    }
}

/// The plain form of a decoder outcome.
pub open spec fn decode_view(r: Result<SessionData, String>) -> Result<SessionDataView, Seq<char>> {
    match r {
        Ok(s) => Ok(s@),
        Err(e) => Err(e@),
    }
}

/// The plain form of an [`SsidError`], with messages as sequences.
pub enum SsidErrorView {
    Other(SsidError),
    SessionData(Seq<char>),
}

/// The plain form of an [`SsidError`].
pub open spec fn error_view(e: SsidError) -> SsidErrorView {
    match e {
        SsidError::SessionData(m) => SsidErrorView::SessionData(m@),
        _ => SsidErrorView::Other(e),
    }
}

/// The SSID that an `auth` record gives, from the outcomes of decoding its
/// session whole (`full`) and, where that fails and the session is longer
/// than its hash, without the hash (`stripped`).
pub open spec fn spec_from_auth(
    auth: DemoView,
    full: Result<SessionDataView, Seq<char>>,
    stripped: Option<Result<SessionDataView, Seq<char>>>,
) -> Result<SsidView, SsidErrorView> {
    if is_demo_record(auth) {
        Ok(SsidView::Demo(auth))
    } else {
        match full {
            Ok(s) => Ok(SsidView::Real(real_of(auth, s))),
            Err(_) => if spec_session_retry_bytes(auth.session) is Some {
                match stripped {
                    Some(Ok(s)) => Ok(SsidView::Real(real_of(auth, s))),
                    Some(Err(m)) => Err(SsidErrorView::SessionData(m)),
                    None => Err(SsidErrorView::Other(SsidError::SessionDataUnreadable)),
                }
            } else {
                Err(SsidErrorView::Other(SsidError::SessionDataUnreadable))
            },
        }
    }
}

impl Demo {
    /// Whether this record denotes a demo session.
    pub fn is_demo_record(&self) -> (r: bool)
        ensures
            r == is_demo_record(self@),
    {
        if self.is_demo == 1 {
            return true;
        }
        match &self.current_url {
            Some(u) => {
                let cs = chars_of(u.as_str());
                let demo = chars_of("demo");
                contains(&cs, &demo)
            },
            None => false,
        }
    }
}

/// The bytes to decode a second time when `session` does not decode whole:
/// `session` without its last 32 bytes, when it is longer than that.
pub fn session_retry_bytes(session: &str) -> (r: Option<Vec<u8>>)
    ensures
        match r {
            Some(b) => spec_session_retry_bytes(session@) == Some(b@),
            None => spec_session_retry_bytes(session@) is None,
        },
{
    let bytes = session.as_bytes();
    if bytes.len() <= 32 {
        return None;
    }
    let end = bytes.len() - 32;
    let mut out: Vec<u8> = Vec::new();
    let mut i: usize = 0;
    while i < end
        invariant
            end < bytes@.len(),
            i <= end,
            out@ =~= bytes@.take(i as int),
        decreases end - i,
    {
        out.push(bytes[i]);
        i = i + 1;
    }
    Some(out)
}


fn make_real(auth: Demo, session: SessionData) -> (r: Real)
    ensures
        r@ == real_of(auth@, session@),
{
    Real {
        session,
        session_raw: auth.session,
        is_demo: auth.is_demo,
        uid: auth.uid,
        platform: auth.platform,
        raw: auth.raw,
        json_raw: auth.json_raw,
        is_fast_history: auth.is_fast_history,
        is_optimized: auth.is_optimized,
        extra: auth.extra,
    }
}

impl Ssid {
    /// The SSID that an `auth` record gives, from the outcomes of decoding
    /// its session whole and, where that fails and the session is longer than
    /// its hash, of decoding [`session_retry_bytes`].
    pub fn from_auth(
        auth: Demo,
        full: Result<SessionData, String>,
        stripped: Option<Result<SessionData, String>>,
    ) -> (r: Result<Ssid, SsidError>)
        ensures
            match r {
                Ok(s) => spec_from_auth(auth@, decode_view(full), match stripped { Some(x) => Some(decode_view(x)), None => None }) == Ok::<_, SsidErrorView>(s@),
                Err(e) => spec_from_auth(auth@, decode_view(full), match stripped { Some(x) => Some(decode_view(x)), None => None }) == Err::<SsidView, _>(error_view(e)),
            },
    {
        if auth.is_demo_record() {
            return Ok(Ssid::Demo(auth));
        }
        match full {
            Ok(s) => Ok(Ssid::Real(make_real(auth, s))),
            Err(_) => {
                let retry = session_retry_bytes(auth.session.as_str());
                if retry.is_some() {
                    match stripped {
                        Some(Ok(s)) => Ok(Ssid::Real(make_real(auth, s))),
                        Some(Err(m)) => Err(SsidError::SessionData(m)),
                        None => Err(SsidError::SessionDataUnreadable),
                    }
                } else {
                    Err(SsidError::SessionDataUnreadable)
                }
            },
        }
    }

    /// The user agent of the session.
    pub fn user_agent(&self) -> (r: String)
        ensures
            r@ == match self@ {
                SsidView::Demo(_) => demo_user_agent(),
                SsidView::Real(rl) => rl.session.user_agent,
            },
    {
        match self {
            Ssid::Demo(_) => String::from_str("Mozilla/5.0 (Windows NT 10.0; Win64; x64) AppleWebKit/537.36 (KHTML, like Gecko) Chrome/132.0.0.0 Safari/537.36"),
            Ssid::Real(rl) => rl.session.user_agent.clone(),
        }
    }

    /// The IP address of a live session.
    pub fn ip_address(&self) -> (r: Option<&str>)
        ensures
            match r {
                Some(ip) => self@ matches SsidView::Real(rl) && ip@ == rl.session.ip_address,
                None => self@ is Demo,
            },
    {
        match self {
            Ssid::Demo(_) => None,
            Ssid::Real(rl) => Some(rl.session.ip_address.as_str()),
        }
    }

    /// Whether the session is a demo session.
    pub fn demo(&self) -> (r: bool)
        ensures
            r == (self@ is Demo),
    {
        match self {
            Ssid::Demo(_) => true,
            Ssid::Real(_) => false,
        }
    }

    /// The current URL of the session: the field of a demo record; for a
    /// live session, the string member `currentUrl` or else `current_url`
    /// of the extra members.
    pub fn current_url(&self) -> (r: Option<String>)
        ensures
            opt_seq(r) == spec_current_url(self@),
    {
        match self {
            Ssid::Demo(demo) => match &demo.current_url {
                Some(u) => Some(u.clone()),
                None => None,
            },
            Ssid::Real(rl) => {
                let a = extra_get(&rl.extra, "currentUrl");
                let v = if a.is_some() { a } else { extra_get(&rl.extra, "current_url") };
                match v {
                    Some(JsonValue::Str(s)) => Some(s.clone()),
                    _ => None,
                }
            },
        }
    }

    /// The session token as it came in the `auth` record.
    pub fn session_id(&self) -> (r: String)
        ensures
            r@ == match self@ {
                SsidView::Demo(d) => d.session,
                SsidView::Real(rl) => rl.session_raw,
            },
    {
        match self {
            Ssid::Demo(demo) => demo.session.clone(),
            Ssid::Real(rl) => rl.session_raw.clone(),
        }
    }

    /// The whole `42["auth",...]` message of the session, which is what the
    /// SSID prints as.
    pub fn to_string(&self) -> (r: String)
        ensures
            r@ == spec_raw(self@),
    {
        match self {
            Ssid::Demo(demo) => demo.raw.clone(),
            Ssid::Real(rl) => rl.raw.clone(),
        }
    }
}

/// The whole `auth` message of an SSID.
pub open spec fn spec_raw(s: SsidView) -> Seq<char> {
    match s {
        SsidView::Demo(d) => d.raw,
        SsidView::Real(r) => r.raw,
    }
}

/// The current URL of an SSID.
pub open spec fn spec_current_url(s: SsidView) -> Option<Seq<char>> {
    match s {
        SsidView::Demo(d) => d.current_url,
        SsidView::Real(r) => {
            let a = member_get(r.extra, "currentUrl"@);
            match (if a is Some { a } else { member_get(r.extra, "current_url"@) }) {
                Some(JsonModel::Str(u)) => Some(u),
                _ => None,
            }
        },
    }
}

fn extra_get<'a>(extra: &'a Vec<(String, JsonValue)>, key: &str) -> (r: Option<&'a JsonValue>)
    ensures
        opt_ref_model(r) == member_get(members_view(extra@), key@),
{
    let ghost m = members_view(extra@);
    assert(m.skip(0) =~= m);
    let mut i: usize = 0;
    while i < extra.len()
        invariant
            i <= extra.len(),
            m == members_view(extra@),
            member_get(m, key@) == member_get(m.skip(i as int), key@),
        decreases extra.len() - i,
    {
        assert(m.skip(i as int).drop_first() =~= m.skip(i + 1));
        assert(m.skip(i as int)[0] == m[i as int]);
        if str_equal(extra[i].0.as_str(), key) {
            return Some(&extra[i].1);
        }
        i = i + 1;
    }
    None
}


/// Re-reading the message of a parsed SSID gives the same record back: an
/// SSID survives being printed and parsed again.
pub proof fn lemma_parse_auth_reparse(data: Seq<char>)
    requires
        spec_parse_auth(data) is Ok,
    ensures
        spec_parse_auth(spec_parse_auth(data)->Ok_0.raw) == spec_parse_auth(data),
{
    let (raw, payload) = spec_frame(data)->Ok_0;
    let t = trim_seq(data);
    let p = auth_prefix();
    assert(raw[0] == '4' && raw.last() == ']') by {
        if seq_starts_with(t, p) {
            assert(t[0] == t.subrange(0, 10)[0]);
            let r = t.skip(10);
            assert(r.last() == r.subrange(r.len() - 1, r.len() as int)[0]);
        } else {
            assert((p + t + seq![']'])[0] == p[0]);
        }
    }
    assert(trim_seq(raw) == raw) by {
        reveal_with_fuel(crate::text::trim_start_seq, 1);
        reveal_with_fuel(crate::text::trim_end_seq, 1);
    }
    assert(!is_double_encoded(raw));
    assert(raw.subrange(0, 10) =~= p) by {
        if !seq_starts_with(t, p) {
            assert((p + t + seq![']']).subrange(0, 10) =~= p);
        }
    }
    assert(seq_ends_with(raw.skip(10), seq![']'])) by {
        let r = raw.skip(10);
        assert(r.subrange(r.len() - 1, r.len() as int) =~= seq![']']);
    }
    assert(raw.skip(10).drop_last() =~= payload) by {
        if !seq_starts_with(t, p) {
            assert((p + t + seq![']']).skip(10).drop_last() =~= t);
        }
    }
    assert(spec_frame(raw) == spec_frame(data));
}

/// Re-reading the message of any parsed SSID, demo or live, gives the same
/// SSID back: the message is an `auth` message whose record is the record
/// read first, with the same session, so the session decodes as before
/// (`full` and `stripped` are the decoder's outcomes on that session).
pub proof fn lemma_ssid_reparse(
    data: Seq<char>,
    full: Result<SessionDataView, Seq<char>>,
    stripped: Option<Result<SessionDataView, Seq<char>>>,
)
    requires
        spec_parse_auth(data) is Ok,
        spec_from_auth(spec_parse_auth(data)->Ok_0, full, stripped) is Ok,
    ensures
        ({
            let s = spec_from_auth(spec_parse_auth(data)->Ok_0, full, stripped)->Ok_0;
            &&& seq_starts_with(spec_raw(s), auth_prefix())
            &&& spec_parse_auth(spec_raw(s)) == spec_parse_auth(data)
            &&& spec_from_auth(spec_parse_auth(spec_raw(s))->Ok_0, full, stripped) == Ok::<SsidView, SsidErrorView>(s)
        }),
{
    lemma_parse_auth_reparse(data);
    lemma_parse_auth_raw_frames_payload(data);
}

/// The message of a parsed SSID is an `auth` message, `42["auth",`
/// followed by the JSON payload and a closing `]`.
pub proof fn lemma_parse_auth_raw_frames_payload(data: Seq<char>)
    requires
        spec_parse_auth(data) is Ok,
    ensures
        ({
            let d = spec_parse_auth(data)->Ok_0;
            &&& seq_starts_with(d.raw, auth_prefix())
            &&& d.raw == auth_prefix() + d.json_raw + seq![']']
        }),
{
    let t = trim_seq(data);
    let p = auth_prefix();
    if seq_starts_with(t, p) {
        let r = t.skip(10);
        assert(r.subrange(r.len() - 1, r.len() as int) =~= seq![']']);
        assert(t =~= p + r.drop_last() + seq![']']);
    } else {
        assert((p + t + seq![']']).subrange(0, 10) =~= p);
    }
}

impl SsidError {
    /// The message that describes the refusal.
    pub fn message(&self) -> (r: String)
        ensures
            r@ == spec_error_message(error_view(*self)),
    {
        match self {
            SsidError::DoubleEncoding => String::from_str("Invalid SSID format: double-encoding detected"),
            SsidError::MissingClosingBracket => String::from_str("Error parsing ssid: missing closing bracket"),
            SsidError::InvalidJson => String::from_str("JSON parsing error: the payload is not valid JSON"),
            SsidError::NotAnObject => String::from_str("JSON parsing error: the payload is not an object"),
            SsidError::MissingField(_) => String::from_str("JSON parsing error: missing field"),
            SsidError::InvalidField(_) => String::from_str("JSON parsing error: invalid field value"),
            SsidError::DuplicateField(_) => String::from_str("JSON parsing error: duplicate field"),
            SsidError::InvalidUidNumber => String::from_str("JSON parsing error: Invalid number for uid"),
            SsidError::InvalidUidString => String::from_str("JSON parsing error: Invalid string for uid"),
            SsidError::InvalidUidType => String::from_str("JSON parsing error: Invalid type for uid"),
            SsidError::SessionData(m) => String::from_str("Error parsing session data: ").concat(m.as_str()),
            SsidError::SessionDataUnreadable => String::from_str("Error parsing session data"),
        }
    }
}

/// The message of a refusal.
pub open spec fn spec_error_message(e: SsidErrorView) -> Seq<char> {
    match e {
        SsidErrorView::SessionData(m) => "Error parsing session data: "@ + m,
        SsidErrorView::Other(SsidError::DoubleEncoding) => "Invalid SSID format: double-encoding detected"@,
        SsidErrorView::Other(SsidError::MissingClosingBracket) => "Error parsing ssid: missing closing bracket"@,
        SsidErrorView::Other(SsidError::InvalidJson) => "JSON parsing error: the payload is not valid JSON"@,
        SsidErrorView::Other(SsidError::NotAnObject) => "JSON parsing error: the payload is not an object"@,
        SsidErrorView::Other(SsidError::MissingField(_)) => "JSON parsing error: missing field"@,
        SsidErrorView::Other(SsidError::InvalidField(_)) => "JSON parsing error: invalid field value"@,
        SsidErrorView::Other(SsidError::DuplicateField(_)) => "JSON parsing error: duplicate field"@,
        SsidErrorView::Other(SsidError::InvalidUidNumber) => "JSON parsing error: Invalid number for uid"@,
        SsidErrorView::Other(SsidError::InvalidUidString) => "JSON parsing error: Invalid string for uid"@,
        SsidErrorView::Other(SsidError::InvalidUidType) => "JSON parsing error: Invalid type for uid"@,
        SsidErrorView::Other(_) => "Error parsing session data"@,
    }
}


/// A text between double quotes, as it is.
pub open spec fn quoted(s: Seq<char>) -> Seq<char> {
    "\""@ + s + "\""@
}

/// How an optional text is shown.
pub open spec fn opt_text_shown(o: Option<Seq<char>>) -> Seq<char> {
    match o {
        Some(s) => "Some("@ + quoted(s) + ")"@,
        None => "None"@,
    }
}

/// How an optional flag is shown.
pub open spec fn opt_bool_shown(o: Option<bool>) -> Seq<char> {
    match o {
        Some(true) => "Some(true)"@,
        Some(false) => "Some(false)"@,
        None => "None"@,
    }
}

/// The quoted keys of `m`, separated by `, `.
pub open spec fn key_list(m: Seq<(Seq<char>, JsonModel)>) -> Seq<char>
    decreases m.len(),
{
    if m.len() == 0 {
        Seq::empty()
    } else if m.len() == 1 {
        quoted(m[0].0)
    } else {
        key_list(m.drop_last()) + ", "@ + quoted(m.last().0)
    }
}

/// How the extra members of a session are shown: their keys.
pub open spec fn keys_shown(m: Seq<(Seq<char>, JsonModel)>) -> Seq<char> {
    "["@ + key_list(m) + "]"@
}

/// The redacted description of a session's data: the session id and the IP
/// address are hidden.
pub open spec fn session_data_shown(s: SessionDataView) -> Seq<char> {
    "SessionData { session_id: \"REDACTED\", ip_address: \"REDACTED\", user_agent: "@ + quoted(s.user_agent)
        + ", last_activity: "@ + decimal_text(s.last_activity as nat) + " }"@
}

/// The redacted description of a demo record: the session token and the raw
/// message are hidden.
pub open spec fn demo_shown(d: DemoView) -> Seq<char> {
    "Demo { session: \"REDACTED\", is_demo: "@ + decimal_text(d.is_demo as nat) + ", uid: "@
        + decimal_text(d.uid as nat) + ", platform: "@ + decimal_text(d.platform as nat) + ", current_url: "@
        + opt_text_shown(d.current_url) + ", is_fast_history: "@ + opt_bool_shown(d.is_fast_history)
        + ", is_optimized: "@ + opt_bool_shown(d.is_optimized) + ", extra: "@ + keys_shown(d.extra) + " }"@
}

/// The redacted description of a live-account record: the session's id and
/// IP address, the raw session and the raw message are hidden.
pub open spec fn real_shown(r: RealView) -> Seq<char> {
    "Real { session: "@ + session_data_shown(r.session) + ", session_raw: \"REDACTED\", is_demo: "@
        + decimal_text(r.is_demo as nat) + ", uid: "@ + decimal_text(r.uid as nat) + ", platform: "@
        + decimal_text(r.platform as nat) + ", raw: \"REDACTED\", is_fast_history: "@
        + opt_bool_shown(r.is_fast_history) + ", is_optimized: "@ + opt_bool_shown(r.is_optimized)
        + ", extra: "@ + keys_shown(r.extra) + " }"@
}

/// The redacted description of an SSID.
pub open spec fn ssid_shown(s: SsidView) -> Seq<char> {
    match s {
        SsidView::Demo(d) => "Demo("@ + demo_shown(d) + ")"@,
        SsidView::Real(r) => "Real("@ + real_shown(r) + ")"@,
    }
}

/// `s` with every secret replaced: the session token, session id, IP
/// address, raw session, raw message and JSON payload.
pub open spec fn with_secrets(s: SsidView, secret: Seq<char>) -> SsidView {
    match s {
        SsidView::Demo(d) => SsidView::Demo(DemoView { session: secret, raw: secret, json_raw: secret, ..d }),
        SsidView::Real(r) => SsidView::Real(RealView {
            session: SessionDataView { session_id: secret, ip_address: secret, ..r.session },
            session_raw: secret,
            raw: secret,
            json_raw: secret,
            ..r
        }),
    }
}

/// The description of an SSID shows none of its secrets: replacing them
/// leaves the description unchanged.
pub proof fn lemma_description_hides_secrets(s: SsidView, secret: Seq<char>)
    ensures
        ssid_shown(with_secrets(s, secret)) == ssid_shown(s),
{
}

fn push_quoted(out: &mut String, s: &str)
    ensures
        final(out)@ == old(out)@ + quoted(s@),
{
    let ghost start = out@;
    out.append("\"");
    out.append(s);
    out.append("\"");
    assert(out@ =~= start + quoted(s@));
}

fn push_opt_text(out: &mut String, o: &Option<String>)
    ensures
        final(out)@ == old(out)@ + opt_text_shown(opt_seq(*o)),
{
    let ghost start = out@;
    match o {
        Some(s) => {
            out.append("Some(");
            push_quoted(out, s.as_str());
            out.append(")");
            assert(out@ =~= start + opt_text_shown(opt_seq(*o)));
        },
        None => {
            out.append("None");
        },
    }
}

fn push_opt_bool(out: &mut String, o: Option<bool>)
    ensures
        final(out)@ == old(out)@ + opt_bool_shown(o),
{
    match o {
        Some(true) => out.append("Some(true)"),
        Some(false) => out.append("Some(false)"),
        None => out.append("None"),
    }
}

fn push_keys(out: &mut String, extra: &Vec<(String, JsonValue)>)
    ensures
        final(out)@ == old(out)@ + keys_shown(members_view(extra@)),
{
    let ghost start = out@;
    let ghost m = members_view(extra@);
    out.append("[");
    let mut i: usize = 0;
    assert(m.take(0) =~= Seq::<(Seq<char>, JsonModel)>::empty());
    assert(out@ =~= start + "["@ + key_list(m.take(0)));
    while i < extra.len()
        invariant
            i <= extra.len(),
            m == members_view(extra@),
            out@ == start + "["@ + key_list(m.take(i as int)),
        decreases extra.len() - i,
    {
        let ghost before = out@;
        assert(m.take(i + 1).drop_last() =~= m.take(i as int));
        assert(m.take(i + 1).last() == m[i as int]);
        assert(m[i as int].0 == extra@[i as int].0@);
        if i > 0 {
            out.append(", ");
        }
        push_quoted(out, extra[i].0.as_str());
        if i == 0 {
            assert(key_list(m.take(1)) == quoted(m.take(1)[0].0));
            assert(out@ =~= start + "["@ + key_list(m.take(i + 1)));
        } else {
            assert(out@ =~= start + "["@ + key_list(m.take(i + 1)));
        }
        i = i + 1;
    }
    assert(m.take(extra.len() as int) =~= m);
    out.append("]");
}

impl SessionData {
    /// A description of the session data that hides its id and IP address.
    pub fn redacted_debug(&self) -> (r: String)
        ensures
            r@ == session_data_shown(self@),
    {
        let mut out = String::from_str("SessionData { session_id: \"REDACTED\", ip_address: \"REDACTED\", user_agent: ");
        push_quoted(&mut out, self.user_agent.as_str());
        out.append(", last_activity: ");
        out.append(u64_text(self.last_activity).as_str());
        out.append(" }");
        out
    }
}

impl Demo {
    /// A description of the record that hides its session token and raw
    /// message.
    pub fn redacted_debug(&self) -> (r: String)
        ensures
            r@ == demo_shown(self@),
    {
        let mut out = String::from_str("Demo { session: \"REDACTED\", is_demo: ");
        out.append(u32_text(self.is_demo).as_str());
        out.append(", uid: ");
        out.append(u32_text(self.uid).as_str());
        out.append(", platform: ");
        out.append(u32_text(self.platform).as_str());
        out.append(", current_url: ");
        push_opt_text(&mut out, &self.current_url);
        out.append(", is_fast_history: ");
        push_opt_bool(&mut out, self.is_fast_history);
        out.append(", is_optimized: ");
        push_opt_bool(&mut out, self.is_optimized);
        out.append(", extra: ");
        push_keys(&mut out, &self.extra);
        out.append(" }");
        out
    }
}

impl Real {
    /// A description of the record that hides the session's id and IP
    /// address, the raw session and the raw message.
    pub fn redacted_debug(&self) -> (r: String)
        ensures
            r@ == real_shown(self@),
    {
        let mut out = String::from_str("Real { session: ");
        out.append(self.session.redacted_debug().as_str());
        out.append(", session_raw: \"REDACTED\", is_demo: ");
        out.append(u32_text(self.is_demo).as_str());
        out.append(", uid: ");
        out.append(u32_text(self.uid).as_str());
        out.append(", platform: ");
        out.append(u32_text(self.platform).as_str());
        out.append(", raw: \"REDACTED\", is_fast_history: ");
        push_opt_bool(&mut out, self.is_fast_history);
        out.append(", is_optimized: ");
        push_opt_bool(&mut out, self.is_optimized);
        out.append(", extra: ");
        push_keys(&mut out, &self.extra);
        out.append(" }");
        out
    }
}

impl Ssid {
    /// A description of the SSID that hides its secrets.
    pub fn redacted_debug(&self) -> (r: String)
        ensures
            r@ == ssid_shown(self@),
    {
        match self {
            Ssid::Demo(d) => String::from_str("Demo(").concat(d.redacted_debug().as_str()).concat(")"),
            Ssid::Real(rl) => String::from_str("Real(").concat(rl.redacted_debug().as_str()).concat(")"),
        }
    }
}


/// Each field of a parsed `auth` record is read from its own member: the
/// session from `session` (or, when absent, `sessionToken`); `isDemo`,
/// `uid` and `platform` from the numbers (or, for `uid`, the text) under
/// those keys, `isDemo` and `platform` being 0 when absent; `currentUrl`,
/// `isFastHistory` and `isOptimized` from those keys, nothing when absent or
/// `null`; and the record keeps the message and payload it came in.
pub proof fn lemma_auth_fields_read_their_keys(m: Seq<(Seq<char>, JsonModel)>, raw: Seq<char>, json_raw: Seq<char>)
    requires
        spec_auth_fields(m, raw, json_raw) is Ok,
    ensures
        ({
            let d = spec_auth_fields(m, raw, json_raw)->Ok_0;
            let session = member_get(m, "session"@);
            let token = member_get(m, "sessionToken"@);
            let is_demo = member_get(m, "isDemo"@);
            let uid = member_get(m, "uid"@);
            let platform = member_get(m, "platform"@);
            let url = member_get(m, "currentUrl"@);
            let fast = member_get(m, "isFastHistory"@);
            let optimized = member_get(m, "isOptimized"@);
            &&& session is Some && session->0 is Str ==> d.session == session->0->Str_0
            &&& session is None && token is Some && token->0 is Str ==> d.session == token->0->Str_0
            &&& is_demo is None ==> d.is_demo == 0
            &&& is_demo is Some && is_demo->0 is Number ==> spec_number_as_u64(is_demo->0->Number_0) == Some(d.is_demo as u64)
            &&& uid is Some && uid->0 is Number ==> spec_number_as_u64(uid->0->Number_0) is Some
                && d.uid == spec_number_as_u64(uid->0->Number_0)->0 as u32
            &&& uid is Some && uid->0 is Str ==> spec_parse_u32(uid->0->Str_0) == Some(d.uid)
            &&& platform is None ==> d.platform == 0
            &&& platform is Some && platform->0 is Number ==> spec_number_as_u64(platform->0->Number_0) == Some(d.platform as u64)
            &&& url is Some && url->0 is Str ==> d.current_url == Some(url->0->Str_0)
            &&& (url is None || url == Some(JsonModel::Null)) ==> d.current_url is None
            &&& fast is Some && fast->0 is Bool ==> d.is_fast_history == Some(fast->0->Bool_0)
            &&& (fast is None || fast == Some(JsonModel::Null)) ==> d.is_fast_history is None
            &&& optimized is Some && optimized->0 is Bool ==> d.is_optimized == Some(optimized->0->Bool_0)
            &&& (optimized is None || optimized == Some(JsonModel::Null)) ==> d.is_optimized is None
            &&& d.raw == raw
            &&& d.json_raw == json_raw
        }),
{
}


/// A refused `auth` record names a member that really is wrong: a missing
/// field is absent, a duplicated session is given under both names, and an
/// invalid field holds a value of the wrong kind (or, for the numbers, one
/// out of range); the user id's three refusals tell a bad number, a bad
/// text and a value of another kind apart.
pub proof fn lemma_auth_refusals_name_the_member(m: Seq<(Seq<char>, JsonModel)>, raw: Seq<char>, json_raw: Seq<char>)
    ensures
        ({
            let r = spec_auth_fields(m, raw, json_raw);
            let session = member_get(m, "session"@);
            let token = member_get(m, "sessionToken"@);
            let chosen = if session is Some { session } else { token };
            let is_demo = member_get(m, "isDemo"@);
            let uid = member_get(m, "uid"@);
            let platform = member_get(m, "platform"@);
            let url = member_get(m, "currentUrl"@);
            let fast = member_get(m, "isFastHistory"@);
            let optimized = member_get(m, "isOptimized"@);
            &&& r == Err::<DemoView, SsidError>(SsidError::DuplicateField(AuthField::Session)) ==> session is Some && token is Some
            &&& r == Err::<DemoView, SsidError>(SsidError::MissingField(AuthField::Session)) ==> session is None && token is None
            &&& r == Err::<DemoView, SsidError>(SsidError::InvalidField(AuthField::Session)) ==> chosen is Some && !(chosen->0 is Str)
            &&& r == Err::<DemoView, SsidError>(SsidError::MissingField(AuthField::Uid)) ==> uid is None
            &&& r == Err::<DemoView, SsidError>(SsidError::InvalidUidNumber) ==> uid is Some && uid->0 is Number
                && spec_number_as_u64(uid->0->Number_0) is None
            &&& r == Err::<DemoView, SsidError>(SsidError::InvalidUidString) ==> uid is Some && uid->0 is Str
                && spec_parse_u32(uid->0->Str_0) is None
            &&& r == Err::<DemoView, SsidError>(SsidError::InvalidUidType) ==> uid is Some && !(uid->0 is Number)
                && !(uid->0 is Str)
            &&& r == Err::<DemoView, SsidError>(SsidError::InvalidField(AuthField::IsDemo)) ==> is_demo is Some && !(
                is_demo->0 is Number && spec_number_as_u64(is_demo->0->Number_0) is Some
                && spec_number_as_u64(is_demo->0->Number_0)->0 <= u32::MAX)
            &&& r == Err::<DemoView, SsidError>(SsidError::InvalidField(AuthField::Platform)) ==> platform is Some && !(
                platform->0 is Number && spec_number_as_u64(platform->0->Number_0) is Some
                && spec_number_as_u64(platform->0->Number_0)->0 <= u32::MAX)
            &&& r == Err::<DemoView, SsidError>(SsidError::InvalidField(AuthField::CurrentUrl)) ==> url is Some && !(url->0 is Str)
                && !(url->0 is Null)
            &&& r == Err::<DemoView, SsidError>(SsidError::InvalidField(AuthField::IsFastHistory)) ==> fast is Some && !(
                fast->0 is Bool) && !(fast->0 is Null)
            &&& r == Err::<DemoView, SsidError>(SsidError::InvalidField(AuthField::IsOptimized)) ==> optimized is Some && !(
                optimized->0 is Bool) && !(optimized->0 is Null)
        }),
{
}

} // verus!
