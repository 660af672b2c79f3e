//! The user message that a notification becomes.
//!
//! A message is made in two stages, since long values are shortened by counting
//! tokens in between: the event first gives out its attributes and its content,
//! and then renders what is left of them.
use vstd::prelude::*;
use super::notification::is_attribute_name;
use super::notification::McpChannelNotification;
use super::xml::decode_xml_entities;
use super::xml::decoded;
use super::xml::end_markers_escaped;
use super::xml::escape_channel_end_markers;
use super::xml::escaped;
use super::xml::law_escaped_text_has_no_markup;
use super::xml::law_no_end_marker_is_left;
use super::xml::lemma_marker_at;
use super::xml::marker_at;
use super::xml::xml_escape;
use super::xml::END_MARKER;
use crate::outside::ids::is_uuid;
use crate::outside::ids::time_ordered_uuid;
use crate::text::chars::chars_of;
use crate::text::chars::lowered;
use crate::text::chars::push_all;
use crate::text::chars::push_text;
use crate::text::chars::string_of;
use crate::text_map::TextMap;

verus! {

/// How many tokens of the content are kept.
pub const MAX_CHANNEL_CONTENT_TOKENS: usize = 8_000;

/// How many attributes are shown.
pub const MAX_CHANNEL_META_ATTRIBUTES: usize = 32;

/// How many tokens of an attribute's value are kept.
pub const MAX_CHANNEL_META_VALUE_TOKENS: usize = 32;

/// The marker before a channel message.
pub const START_MARKER: &'static str = "<channel";

/// A message from a channel.
#[derive(Debug, Clone, PartialEq, Eq)]
pub struct McpChannelEvent {
    source: String,
    content: String,
    meta: TextMap<String>,
}

/// The attributes with their values, each behind a space.
pub open spec fn attributes_text(names: Seq<Seq<char>>, values: Seq<Seq<char>>) -> Seq<char>
    decreases names.len(),
{
    if names.len() == 0 {
        Seq::empty()
    } else {
        attributes_text(names.drop_last(), values.drop_last()) + " "@ + names.last() + "=\""@
            + escaped(values.last()) + "\""@
    }
}

/// The message between its markers.
pub open spec fn body_text(
    source: Seq<char>,
    names: Seq<Seq<char>>,
    values: Seq<Seq<char>>,
    content: Seq<char>,
) -> Seq<char> {
    " source=\""@ + escaped(source) + "\""@ + attributes_text(names, values) + ">"@
        + end_markers_escaped(content)
}

/// The whole message.
pub open spec fn message_text(
    source: Seq<char>,
    names: Seq<Seq<char>>,
    values: Seq<Seq<char>>,
    content: Seq<char>,
) -> Seq<char> {
    START_MARKER@ + body_text(source, names, values, content) + END_MARKER@
}

/// At most as many entries as are shown.
pub open spec fn shown(pairs: Seq<(Seq<char>, String)>) -> Seq<(Seq<char>, String)> {
    if pairs.len() > MAX_CHANNEL_META_ATTRIBUTES {
        pairs.take(MAX_CHANNEL_META_ATTRIBUTES as int)
    } else {
        pairs
    }
}

/// The names of the entries.
pub open spec fn pair_names(pairs: Seq<(Seq<char>, String)>) -> Seq<Seq<char>> {
    pairs.map_values(|p: (Seq<char>, String)| p.0)
}

impl McpChannelEvent {
    /// The server that sent the message.
    pub closed spec fn source_text(self) -> Seq<char> {
        self.source@
    }

    /// The message as it was sent.
    pub closed spec fn content_text(self) -> Seq<char> {
        self.content@
    }

    /// The attributes.
    pub closed spec fn attributes_map(self) -> TextMap<String> {
        self.meta
    }

    /// The attributes that are shown: the first in the order of their names.
    pub open spec fn shown_pairs(self) -> Seq<(Seq<char>, String)> {
        shown(self.attributes_map().pairs())
    }

    /// The attributes are in order.
    pub open spec fn wf(self) -> bool {
        self.attributes_map().wf()
    }

    /// The message of a notification. An attribute in the name of the server is
    /// dropped.
    pub fn from_notification(value: McpChannelNotification) -> (r: Self)
        requires
            value.meta.wf(),
        ensures
            r.wf(),
            r.source_text() == value.source@,
            r.content_text() == value.content@,
            r.attributes_map()@ == value.meta@.remove("source"@),
    {
        let mut meta = value.meta;
        let _ = meta.remove("source");
        McpChannelEvent { source: value.source, content: value.content, meta }
    }

    /// The role under which the message is given.
    pub fn role(&self) -> (r: &'static str)
        ensures
            r@ == "user"@,
    {
        "user"
    }

    /// The markers before and behind the message.
    pub fn type_markers() -> (r: (&'static str, &'static str))
        ensures
            r.0@ == START_MARKER@,
            r.1@ == END_MARKER@,
    {
        (START_MARKER, END_MARKER)
    }

    /// The values of the attributes that are shown, to be shortened.
    pub fn attribute_values(&self) -> (r: Vec<String>)
        requires
            self.wf(),
        ensures
            r@.len() == self.shown_pairs().len(),
            forall|i: int| 0 <= i < r@.len() ==> (#[trigger] r@[i])@ == self.shown_pairs()[i].1@,
    {
        let n = self.shown_count();
        let mut r: Vec<String> = Vec::new();
        let mut i: usize = 0;
        while i < n
            invariant
                i <= n,
                n == self.shown_pairs().len(),
                n <= self.attributes_map().pairs().len(),
                r@.len() == i,
                forall|j: int| 0 <= j < i ==> (#[trigger] r@[j])@ == self.shown_pairs()[j].1@,
            decreases n - i,
        {
            let (_, value) = self.meta.entry_at(i);
            r.push(value.clone());
            i += 1;
        }
        r
    }

    /// The content with its entities decoded, to be shortened.
    pub fn decoded_content(&self) -> (r: String)
        ensures
            r@ == decoded(self.content_text()),
    {
        string_of(&decode_xml_entities(&chars_of(self.content.as_str())))
    }

    /// How many attributes are shown.
    fn shown_count(&self) -> (n: usize)
        requires
            self.wf(),
        ensures
            n == self.shown_pairs().len(),
            n <= self.attributes_map().pairs().len(),
    {
        let n = self.meta.len();
        if n > MAX_CHANNEL_META_ATTRIBUTES {
            MAX_CHANNEL_META_ATTRIBUTES
        } else {
            n
        }
    }

    /// The message between its markers, with the shortened values and content.
    pub fn body(&self, values: &Vec<String>, content: &str) -> (r: String)
        requires
            self.wf(),
            values@.len() == self.shown_pairs().len(),
        ensures
            r@ == body_text(
                self.source_text(),
                pair_names(self.shown_pairs()),
                values.deep_view(),
                content@,
            ),
    {
        string_of(&self.body_chars(values, content))
    }

    fn body_chars(&self, values: &Vec<String>, content: &str) -> (r: Vec<char>)
        requires
            self.wf(),
            values@.len() == self.shown_pairs().len(),
        ensures
            r@ == body_text(
                self.source_text(),
                pair_names(self.shown_pairs()),
                values.deep_view(),
                content@,
            ),
    {
        let mut r = chars_of(" source=\"");
        push_all(&mut r, &xml_escape(&chars_of(self.source.as_str())));
        push_text(&mut r, "\"");
        let ghost head = r@;
        let ghost names = pair_names(self.shown_pairs());
        let n = self.shown_count();
        let mut i: usize = 0;
        assert(head + attributes_text(names.take(0), values.deep_view().take(0)) =~= head);
        while i < n
            invariant
                i <= n,
                n == self.shown_pairs().len(),
                n == values@.len(),
                n <= self.attributes_map().pairs().len(),
                names == pair_names(self.shown_pairs()),
                r@ == head + attributes_text(
                    names.take(i as int),
                    values.deep_view().take(i as int),
                ),
            decreases n - i,
        {
            let ghost before = r@;
            let (key, _) = self.meta.entry_at(i);
            assert(names[i as int] == key@);
            push_text(&mut r, " ");
            push_text(&mut r, key.as_str());
            push_text(&mut r, "=\"");
            push_all(&mut r, &xml_escape(&chars_of(values[i].as_str())));
            push_text(&mut r, "\"");
            proof {
                let ns = names.take(i + 1);
                let vs = values.deep_view().take(i + 1);
                assert(ns.drop_last() =~= names.take(i as int));
                assert(vs.drop_last() =~= values.deep_view().take(i as int));
                assert(ns.last() == key@);
                assert(vs.last() == values@[i as int]@);
                assert(r@ =~= head + attributes_text(ns, vs));
            }
            i += 1;
        }
        assert(names.take(i as int) =~= names);
        assert(values.deep_view().take(i as int) =~= values.deep_view());
        push_text(&mut r, ">");
        push_all(&mut r, &escape_channel_end_markers(&chars_of(content)));
        r
    }

    /// The whole message, with the shortened values and content.
    pub fn render(&self, values: &Vec<String>, content: &str) -> (r: String)
        requires
            self.wf(),
            values@.len() == self.shown_pairs().len(),
        ensures
            r@ == message_text(
                self.source_text(),
                pair_names(self.shown_pairs()),
                values.deep_view(),
                content@,
            ),
    {
        let mut r = chars_of(START_MARKER);
        push_all(&mut r, &self.body_chars(values, content));
        push_text(&mut r, END_MARKER);
        string_of(&r)
    }
}

/// A message that is handed to a session.
#[derive(Debug, Clone, PartialEq, Eq)]
pub struct ChannelSubmission {
    /// The identity of the submission.
    pub id: String,
    /// The text that the user is taken to have said.
    pub text: String,
}

/// Hands the rendered message to a session under a fresh identity that follows
/// the order of time.
pub fn channel_notification_submission(
    event: &McpChannelEvent,
    values: &Vec<String>,
    content: &str,
) -> (r: ChannelSubmission)
    requires
        event.wf(),
        values@.len() == event.shown_pairs().len(),
    ensures
        is_uuid(r.id@, '7'),
        r.text@ == message_text(
            event.source_text(),
            pair_names(event.shown_pairs()),
            values.deep_view(),
            content@,
        ),
{
    ChannelSubmission { id: time_ordered_uuid(), text: event.render(values, content) }
}

proof fn lemma_attributes_have_no_angle(names: Seq<Seq<char>>, values: Seq<Seq<char>>)
    requires
        names.len() == values.len(),
        forall|i: int| 0 <= i < names.len() ==> is_attribute_name(#[trigger] names[i]),
    ensures
        forall|i: int|
            0 <= i < attributes_text(names, values).len() ==> (#[trigger] attributes_text(
                names,
                values,
            )[i]) != '<',
    decreases names.len(),
{
    if names.len() > 0 {
        let before = attributes_text(names.drop_last(), values.drop_last());
        let name = names.last();
        let value = escaped(values.last());
        assert(is_attribute_name(names[names.len() - 1]));
        assert forall|i: int| 0 <= i < names.drop_last().len() implies is_attribute_name(
            #[trigger] names.drop_last()[i],
        ) by {
            assert(names.drop_last()[i] == names[i]);
        }
        lemma_attributes_have_no_angle(names.drop_last(), values.drop_last());
        law_escaped_text_has_no_markup(values.last());
        reveal_strlit(" ");
        reveal_strlit("=\"");
        reveal_strlit("\"");
        let all = attributes_text(names, values);
        assert(all == before + " "@ + name + "=\""@ + value + "\""@);
        let a = before.len() as int;
        let b = a + 1 + name.len();
        let c = b + 2 + value.len();
        assert forall|i: int| 0 <= i < all.len() implies (#[trigger] all[i]) != '<' by {
            if i < a {
                assert(all[i] == before[i]);
            } else if a < i < b {
                assert(all[i] == name[i - a - 1]);
            } else if b + 2 <= i < c {
                assert(all[i] == value[i - b - 2]);
            }
        }
    }
}

/// The end marker, in any mixture of ASCII case, stands in a message only at its
/// end, whatever the server put into the source, the attributes and the content:
/// no message can end before its end, and none can go on behind it.
pub proof fn law_message_ends_at_its_end_marker_only(
    source: Seq<char>,
    names: Seq<Seq<char>>,
    values: Seq<Seq<char>>,
    content: Seq<char>,
    p: int,
)
    requires
        names.len() == values.len(),
        forall|i: int| 0 <= i < names.len() ==> is_attribute_name(#[trigger] names[i]),
        marker_at(message_text(source, names, values, content), p),
    ensures
        p == message_text(source, names, values, content).len() - END_MARKER@.len(),
{
    reveal_strlit("<channel");
    reveal_strlit("</channel>");
    reveal_strlit(" source=\"");
    reveal_strlit("\"");
    reveal_strlit(">");
    let all = message_text(source, names, values, content);
    let attributes = attributes_text(names, values);
    let tag = " source=\""@ + escaped(source) + "\""@ + attributes + ">"@;
    let inner = end_markers_escaped(content);
    assert(all =~= START_MARKER@ + tag + inner + END_MARKER@);
    law_escaped_text_has_no_markup(source);
    lemma_attributes_have_no_angle(names, values);
    let e = escaped(source).len() as int;
    assert forall|i: int| 0 <= i < tag.len() implies (#[trigger] tag[i]) != '<' by {
        if 9 <= i < 9 + e {
            assert(tag[i] == escaped(source)[i - 9]);
        } else if 10 + e <= i < 10 + e + attributes.len() {
            assert(tag[i] == attributes[i - 10 - e]);
        }
    }
    lemma_marker_at(all, p);
    let a = 8 + tag.len() as int;
    let b = a + inner.len() as int;
    if p == 0 {
        assert(lowered(all).subrange(0, 10)[1] == lowered(all)[1]);
        assert(all[1] == 'c');
    } else if p < 8 {
        assert(all[p] == START_MARKER@[p]);
    } else if p < a {
        assert(all[p] == tag[p - 8]);
    } else if p < b {
        if p + 10 <= b {
            assert(lowered(all).subrange(p, p + 10) =~= lowered(inner).subrange(p - a, p - a + 10));
            assert(marker_at(inner, p - a));
            law_no_end_marker_is_left(content, p - a);
        } else {
            assert(all[b] == END_MARKER@[0]);
        }
    } else {
        assert(all[p] == END_MARKER@[p - b]);
    }
}

/// A message begins with the tag of a channel, names its server first, then its
/// attributes, one behind another, and holds its content up to the end marker.
pub proof fn law_message_names_its_source_and_attributes(
    source: Seq<char>,
    names: Seq<Seq<char>>,
    values: Seq<Seq<char>>,
    name: Seq<char>,
    value: Seq<char>,
    content: Seq<char>,
)
    requires
        names.len() == values.len(),
    ensures
        message_text(source, names, values, content) == "<channel source=\""@ + escaped(source)
            + "\""@ + attributes_text(names, values) + ">"@ + end_markers_escaped(content)
            + "</channel>"@,
        attributes_text(Seq::empty(), Seq::empty()) == Seq::<char>::empty(),
        attributes_text(names.push(name), values.push(value)) == attributes_text(names, values)
            + " "@ + name + "=\""@ + escaped(value) + "\""@,
{
    reveal_strlit("<channel");
    reveal_strlit(" source=\"");
    reveal_strlit("<channel source=\"");
    assert("<channel"@ + " source=\""@ =~= "<channel source=\""@);
    assert(message_text(source, names, values, content) =~= "<channel source=\""@ + escaped(source)
        + "\""@ + attributes_text(names, values) + ">"@ + end_markers_escaped(content)
        + "</channel>"@);
    assert(names.push(name).drop_last() =~= names);
    assert(values.push(value).drop_last() =~= values);
}

/// The first 32 attributes are shown, and all of them where there are no more.
pub proof fn law_first_attributes_are_shown(pairs: Seq<(Seq<char>, String)>)
    ensures
        pairs.len() <= 32 ==> shown(pairs) == pairs,
        pairs.len() > 32 ==> shown(pairs) == pairs.take(32),
{
}

} // verus!
