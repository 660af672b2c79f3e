//! Notifications as they come from a server.
use vstd::prelude::*;
use crate::text::chars::all_alphanumeric_or;
use crate::text::chars::ascii_alphanumeric;
use crate::text::chars::chars_of;
use crate::text::chars::same_text;
use crate::text_map::TextMap;

verus! {

/// The experimental capability of servers that send channel notifications.
pub const MCP_CHANNEL_CAPABILITY: &'static str = "codex/channel";

/// The method of channel notifications.
pub const MCP_CHANNEL_NOTIFICATION_METHOD: &'static str = "notifications/codex/channel";

/// A JSON value, as far as it matters here.
#[derive(Debug)]
pub enum ParamValue {
    /// A string.
    Text(String),
    /// An object with its members in order.
    Object(Vec<(String, ParamValue)>),
    /// Anything else.
    Other,
}

/// A notification.
#[derive(Debug, Clone, PartialEq, Eq)]
pub struct McpChannelNotification {
    /// The server.
    pub source: String,
    /// The message.
    pub content: String,
    /// What else the server says of the message.
    pub meta: TextMap<String>,
}

/// Why a notification cannot be read.
#[derive(Debug, Clone, Copy, PartialEq, Eq, Structural)]
pub enum McpChannelNotificationParseError {
    /// There are no parameters.
    MissingParams,
    /// The parameters are no object.
    InvalidParams,
    /// The content is no string.
    InvalidContent,
}

impl McpChannelNotificationParseError {
    /// The text of the error.
    pub open spec fn text(self) -> Seq<char> {
        match self {
            McpChannelNotificationParseError::MissingParams => "missing params"@,
            McpChannelNotificationParseError::InvalidParams => "params must be a JSON object"@,
            McpChannelNotificationParseError::InvalidContent => "params.content must be a string"@,
        }
    }

    /// The text of the error.
    pub fn to_text(&self) -> (r: &'static str)
        ensures
            r@ == self.text(),
    {
        match self {
            McpChannelNotificationParseError::MissingParams => "missing params",
            McpChannelNotificationParseError::InvalidParams => "params must be a JSON object",
            McpChannelNotificationParseError::InvalidContent => "params.content must be a string",
        }
    }
}

/// The first member of an object with the given name.
pub open spec fn member(members: Seq<(String, ParamValue)>, name: Seq<char>) -> Option<ParamValue>
    decreases members.len(),
{
    if members.len() == 0 {
        None
    } else if members[0].0@ == name {
        Some(members[0].1)
    } else {
        member(members.skip(1), name)
    }
}

/// Whether a name may be an attribute: letters, digits and underscores, and not
/// the name of the attribute that is not the server's to set.
pub open spec fn is_meta_key(key: Seq<char>) -> bool {
    key != "source"@ && is_attribute_name(key)
}

/// Whether a text is made of ASCII letters, digits and underscores, at least one.
pub open spec fn is_attribute_name(key: Seq<char>) -> bool {
    key.len() > 0 && forall|i: int|
        0 <= i < key.len() ==> ascii_alphanumeric(#[trigger] key[i]) || key[i] == '_'
}

/// The attributes among the members of an object: those with an attribute's name
/// and a string.
pub open spec fn attributes_of(members: Seq<(String, ParamValue)>) -> Map<Seq<char>, Seq<char>>
    decreases members.len(),
{
    if members.len() == 0 {
        Map::empty()
    } else {
        let (key, value) = members.last();
        match value {
            ParamValue::Text(text) if is_meta_key(key@) => attributes_of(
                members.drop_last(),
            ).insert(key@, text@),
            _ => attributes_of(members.drop_last()),
        }
    }
}

/// The texts of a map.
pub open spec fn text_values(m: Map<Seq<char>, String>) -> Map<Seq<char>, Seq<char>> {
    m.map_values(|s: String| s@)
}

/// A notification as texts.
#[verifier::ext_equal]
pub struct NotificationModel {
    /// The server.
    pub source: Seq<char>,
    /// The message.
    pub content: Seq<char>,
    /// What else the server says of the message.
    pub meta: Map<Seq<char>, Seq<char>>,
}

impl View for McpChannelNotification {
    type V = NotificationModel;

    open spec fn view(&self) -> NotificationModel {
        NotificationModel {
            source: self.source@,
            content: self.content@,
            meta: text_values(self.meta@),
        }
    }
}

/// What the parameters of a notification say.
pub open spec fn notification_of(source: Seq<char>, params: Option<ParamValue>) -> Result<
    NotificationModel,
    McpChannelNotificationParseError,
> {
    match params {
        None => Err(McpChannelNotificationParseError::MissingParams),
        Some(ParamValue::Object(members)) => match member(members@, "content"@) {
            Some(ParamValue::Text(content)) => Ok(
                NotificationModel {
                    source,
                    content: content@,
                    meta: match member(members@, "meta"@) {
                        Some(ParamValue::Object(meta)) => attributes_of(meta@),
                        _ => Map::empty(),
                    },
                },
            ),
            _ => Err(McpChannelNotificationParseError::InvalidContent),
        },
        Some(_) => Err(McpChannelNotificationParseError::InvalidParams),
    }
}

impl McpChannelNotification {
    /// The attributes are in order, and their names are attribute names.
    pub open spec fn wf(self) -> bool {
        &&& self.meta.wf()
        &&& forall|k: Seq<char>| #[trigger] self.meta@.contains_key(k) ==> is_meta_key(k)
    }

    /// Reads a notification of a server; `None` where it is of another method.
    pub fn from_custom_notification(source: &str, method: &str, params: Option<&ParamValue>) -> (r:
        Option<Result<Self, McpChannelNotificationParseError>>)
        ensures
            r is Some == (method@ == MCP_CHANNEL_NOTIFICATION_METHOD@),
            r matches Some(parsed) ==> parse_agrees(parsed, source@, params),
    {
        if !same_text(method, MCP_CHANNEL_NOTIFICATION_METHOD) {
            return None;
        }
        Some(parse_channel_notification(source, params))
    }
}

/// Whether a result is what the parameters say.
pub open spec fn parse_agrees(
    parsed: Result<McpChannelNotification, McpChannelNotificationParseError>,
    source: Seq<char>,
    params: Option<&ParamValue>,
) -> bool {
    let said = notification_of(
        source,
        match params {
            Some(p) => Some(*p),
            None => None,
        },
    );
    match parsed {
        Ok(n) => n.wf() && said == Ok::<_, McpChannelNotificationParseError>(n@),
        Err(e) => said == Err::<NotificationModel, _>(e),
    }
}

/// Reads the parameters of a notification.
pub fn parse_channel_notification(source: &str, params: Option<&ParamValue>) -> (r: Result<
    McpChannelNotification,
    McpChannelNotificationParseError,
>)
    ensures
        parse_agrees(r, source@, params),
{
    let params = match params {
        Some(params) => params,
        None => {
            return Err(McpChannelNotificationParseError::MissingParams);
        },
    };
    let members = match params {
        ParamValue::Object(members) => members,
        _ => {
            return Err(McpChannelNotificationParseError::InvalidParams);
        },
    };
    let content = match find_member(members, "content") {
        Some(ParamValue::Text(content)) => content.clone(),
        _ => {
            return Err(McpChannelNotificationParseError::InvalidContent);
        },
    };
    let meta = match find_member(members, "meta") {
        Some(ParamValue::Object(meta)) => collect_attributes(meta),
        _ => {
            let none: TextMap<String> = TextMap::new();
            assert(text_values(none@) =~= Map::empty());
            none
        },
    };
    Ok(McpChannelNotification { source: source.to_owned(), content, meta })
}

/// The first member of an object with the given name.
fn find_member<'a>(members: &'a Vec<(String, ParamValue)>, name: &str) -> (r: Option<
    &'a ParamValue,
>)
    ensures
        match r {
            Some(value) => member(members@, name@) == Some(*value),
            None => member(members@, name@) is None,
        },
{
    let mut i: usize = 0;
    assert(members@.skip(0) =~= members@);
    while i < members.len()
        invariant
            i <= members@.len(),
            member(members@, name@) == member(members@.skip(i as int), name@),
        decreases members@.len() - i,
    {
        assert(members@.skip(i as int)[0] == members@[i as int]);
        assert(members@.skip(i as int).skip(1) =~= members@.skip(i + 1));
        if same_text(members[i].0.as_str(), name) {
            return Some(&members[i].1);
        }
        i += 1;
    }
    None
}

/// The attributes among the members of an object.
fn collect_attributes(members: &Vec<(String, ParamValue)>) -> (r: TextMap<String>)
    ensures
        r.wf(),
        text_values(r@) == attributes_of(members@),
        forall|k: Seq<char>| #[trigger] r@.contains_key(k) ==> is_meta_key(k),
{
    let mut r: TextMap<String> = TextMap::new();
    let mut i: usize = 0;
    assert(text_values(r@) =~= attributes_of(members@.take(0)));
    while i < members.len()
        invariant
            i <= members@.len(),
            r.wf(),
            text_values(r@) == attributes_of(members@.take(i as int)),
            forall|k: Seq<char>| #[trigger] r@.contains_key(k) ==> is_meta_key(k),
        decreases members@.len() - i,
    {
        let ghost before = r@;
        let ghost upto = members@.take(i + 1);
        assert(upto.drop_last() =~= members@.take(i as int));
        assert(upto.last() == members@[i as int]);
        let (key, value) = &members[i];
        if is_valid_channel_meta_key(key.as_str()) {
            if let ParamValue::Text(text) = value {
                r.insert(key.clone(), text.clone());
                assert(text_values(r@) =~= text_values(before).insert(key@, text@));
            }
        }
        i += 1;
    }
    assert(members@.take(i as int) =~= members@);
    r
}

/// Whether a name may be an attribute.
pub fn is_valid_channel_meta_key(key: &str) -> (r: bool)
    ensures
        r == is_meta_key(key@),
{
    let chars = chars_of(key);
    let underscore = ['_'];
    proof {
        assert forall|c: char| #[trigger] underscore@.contains(c) == (c == '_') by {
            assert(underscore@[0] == '_');
        }
    }
    !same_text(key, "source") && chars.len() > 0 && all_alphanumeric_or(&chars, &underscore)
}

/// The attribute that names the server is never taken from the server's own
/// words, nor is any whose name is no attribute name.
pub proof fn law_attributes_are_valid_names(members: Seq<(String, ParamValue)>, key: Seq<char>)
    requires
        attributes_of(members).contains_key(key),
    ensures
        is_meta_key(key),
        key != "source"@,
    decreases members.len(),
{
    let (last, value) = members.last();
    if attributes_of(members.drop_last()).contains_key(key) {
        law_attributes_are_valid_names(members.drop_last(), key);
    }
}

/// The member of an object is the first one with its name, and there is none where
/// no member has the name.
pub proof fn law_first_member_of_the_name_counts(
    members: Seq<(String, ParamValue)>,
    name: Seq<char>,
)
    ensures
        member(members, name) is None <==> forall|i: int|
            0 <= i < members.len() ==> (#[trigger] members[i]).0@ != name,
        forall|i: int|
            0 <= i < members.len() && (#[trigger] members[i]).0@ == name && (forall|j: int|
                0 <= j < i ==> (#[trigger] members[j]).0@ != name) ==> member(members, name)
                == Some(members[i].1),
    decreases members.len(),
{
    if members.len() > 0 {
        let rest = members.skip(1);
        law_first_member_of_the_name_counts(rest, name);
        assert(forall|i: int| 0 <= i < rest.len() ==> #[trigger] rest[i] == members[i + 1]);
        assert(forall|i: int| 0 < i < members.len() ==> #[trigger] members[i] == rest[i - 1]);
        if members[0].0@ != name {
            assert forall|i: int|
                0 <= i < members.len() && (#[trigger] members[i]).0@ == name && (forall|j: int|
                    0 <= j < i ==> (#[trigger] members[j]).0@ != name) implies member(members, name)
                == Some(members[i].1) by {
                assert(rest[i - 1] == members[i]);
                assert forall|j: int| 0 <= j < i - 1 implies (#[trigger] rest[j]).0@ != name by {
                    assert(rest[j] == members[j + 1]);
                }
            }
        }
    }
}

/// A member with an attribute's name and a string is taken over with its value, in
/// place of an earlier one of that name; any other member is passed over, and no
/// member changes what another one says.
pub proof fn law_attributes_are_taken_over(
    members: Seq<(String, ParamValue)>,
    key: String,
    value: ParamValue,
    other: Seq<char>,
)
    ensures
        attributes_of(Seq::empty()) == Map::<Seq<char>, Seq<char>>::empty(),
        ({
            let before = attributes_of(members);
            let after = attributes_of(members.push((key, value)));
            let named = key@ != "source"@ && key@.len() > 0 && forall|i: int|
                0 <= i < key@.len() ==> ascii_alphanumeric(#[trigger] key@[i]) || key@[i] == '_';
            &&& value matches ParamValue::Text(text) ==> named ==> after.contains_key(key@)
                && after[key@] == text@
            &&& !named || !(value is Text) ==> after == before
            &&& other != key@ ==> after.contains_key(other) == before.contains_key(other)
            &&& other != key@ && before.contains_key(other) ==> after[other] == before[other]
        }),
{
    assert(members.push((key, value)).drop_last() =~= members);
    assert(members.push((key, value)).last() == (key, value));
}

/// A notification is read exactly where it has parameters, they are an object, and
/// its content is a string; it then comes from its server, with that content, and
/// with the attributes of its metadata where that is an object and without any
/// otherwise. What is missing first is what is reported.
pub proof fn law_notification_needs_its_content(source: Seq<char>, params: Option<ParamValue>)
    ensures
        ({
            let said = notification_of(source, params);
            let object = params is Some && params->0 is Object;
            let members = (params->0)->Object_0@;
            let content = member(members, "content"@);
            let readable = content is Some && content->0 is Text;
            let meta = member(members, "meta"@);
            &&& params is None ==> said == Err::<NotificationModel, _>(
                McpChannelNotificationParseError::MissingParams,
            )
            &&& params is Some && !object ==> said == Err::<NotificationModel, _>(
                McpChannelNotificationParseError::InvalidParams,
            )
            &&& object && !readable ==> said == Err::<NotificationModel, _>(
                McpChannelNotificationParseError::InvalidContent,
            )
            &&& object && readable ==> {
                &&& said is Ok
                &&& said->Ok_0.source == source
                &&& said->Ok_0.content == ((content->0)->Text_0)@
                &&& said->Ok_0.meta == (if meta is Some && meta->0 is Object {
                    attributes_of((meta->0)->Object_0@)
                } else {
                    Map::empty()
                })
            }
        }),
{
}

/// What parameters say settles the result of reading them: no two results agree
/// with the same parameters but those that say the same of the same server.
pub proof fn law_parameters_settle_the_result(
    a: Result<McpChannelNotification, McpChannelNotificationParseError>,
    b: Result<McpChannelNotification, McpChannelNotificationParseError>,
    source: Seq<char>,
    params: Option<&ParamValue>,
)
    requires
        parse_agrees(a, source, params),
        parse_agrees(b, source, params),
    ensures
        a is Ok <==> b is Ok,
        a is Ok ==> (a->Ok_0)@ == (b->Ok_0)@ && (a->Ok_0).source@ == source,
        a is Err ==> a->Err_0 == b->Err_0,
        params is None <==> a matches Err(McpChannelNotificationParseError::MissingParams),
{
}

/// The text of an error says what is wrong with the parameters.
pub proof fn law_error_text_says_what_is_wrong(e: McpChannelNotificationParseError)
    ensures
        e.text() == "missing params"@ <==> e is MissingParams,
        e.text() == "params must be a JSON object"@ <==> e is InvalidParams,
        e.text() == "params.content must be a string"@ <==> e is InvalidContent,
{
    reveal_strlit("missing params");
    reveal_strlit("params must be a JSON object");
    reveal_strlit("params.content must be a string");
    assert("missing params"@.len() == 14);
    assert("params must be a JSON object"@.len() == 28);
    assert("params.content must be a string"@.len() == 31);
}

} // verus!
