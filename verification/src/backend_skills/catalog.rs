//! Catalog entries and the resources that they are made of.
use vstd::prelude::*;
use crate::text::chars::chars_of;
use crate::text::chars::control;
use crate::text::chars::has_char;
use crate::text::chars::is_control;
use crate::text::chars::is_whitespace;
use crate::text::chars::push_all;
use crate::text::chars::push_text;
use crate::text::chars::same_text;
use crate::text::chars::string_of;
use crate::text::chars::trim_end_of;
use crate::text::chars::trimmed_end;
use crate::text::chars::whitespace;
use crate::text::chars::TrimClass;
use crate::text::search::starts_with;
use crate::text::search::without_prefix;
use crate::text::split::join;
use crate::text::split::join_parts;
use crate::text::split::law_joined_words_are_split_again;
use crate::text::split::lemma_words_are_words;
use crate::text::split::split_words;
use crate::text::split::words;

verus! {

/// The type of resources that are skills.
pub const BACKEND_SKILL_MIME_TYPE: &'static str = "mcp/skill";

/// The longest name, in characters.
pub const MAX_SKILL_NAME_CHARS: usize = 64;

/// The longest name together with that of the plugin, in characters.
pub const MAX_QUALIFIED_SKILL_NAME_CHARS: usize = 128;

/// The longest description, in characters.
pub const MAX_SKILL_DESCRIPTION_CHARS: usize = 1_024;

/// The longest address, in characters.
pub const MAX_SKILL_URI_CHARS: usize = 1_024;

/// What a resource says of the skill, as far as it is a string.
#[derive(Debug, Clone, PartialEq, Eq)]
pub struct SkillMeta {
    /// The name of the skill.
    pub skill_name: Option<String>,
    /// The name of the plugin.
    pub plugin_name: Option<String>,
    /// Where the skill comes from.
    pub source: Option<String>,
}

/// A resource of the backend.
#[derive(Debug, Clone, PartialEq, Eq)]
pub struct BackendResource {
    /// The address.
    pub uri: String,
    /// The type.
    pub mime_type: Option<String>,
    /// The description.
    pub description: Option<String>,
    /// What it says of the skill, where it has an object for that.
    pub meta: Option<SkillMeta>,
}

/// Who answers for a skill.
#[derive(Debug, Clone, Copy, PartialEq, Eq, Structural)]
pub enum SkillSourceKind {
    /// A remote server.
    Remote,
    /// Anyone else.
    Other,
}

/// Who answers for a skill, by name.
#[derive(Debug, Clone, PartialEq, Eq)]
pub struct SkillAuthority {
    /// The kind.
    pub kind: SkillSourceKind,
    /// The name.
    pub id: String,
}

/// A skill in a catalog.
#[derive(Debug, Clone, PartialEq, Eq)]
pub struct SkillCatalogEntry {
    /// The package.
    pub package: String,
    /// Who answers for the skill.
    pub authority: SkillAuthority,
    /// The name.
    pub name: String,
    /// The description.
    pub description: String,
    /// The address of the main prompt.
    pub main_prompt: String,
    /// The address to show.
    pub display_path: String,
}

/// A catalog entry as texts.
#[verifier::ext_equal]
pub struct EntryModel {
    /// The package, which is also the address to show.
    pub package: Seq<char>,
    /// The server that answers for the skill.
    pub server: Seq<char>,
    /// The name.
    pub name: Seq<char>,
    /// The description.
    pub description: Seq<char>,
    /// The address of the main prompt.
    pub main_prompt: Seq<char>,
}

impl SkillCatalogEntry {
    /// Whether the entry says what the model says.
    pub open spec fn says(self, m: EntryModel) -> bool {
        &&& self.package@ == m.package
        &&& self.display_path@ == m.package
        &&& self.authority.kind == SkillSourceKind::Remote
        &&& self.authority.id@ == m.server
        &&& self.name@ == m.name
        &&& self.description@ == m.description
        &&& self.main_prompt@ == m.main_prompt
    }
}

/// Whether entries say what the models say.
pub open spec fn all_say(entries: Seq<SkillCatalogEntry>, models: Seq<EntryModel>) -> bool {
    entries.len() == models.len() && forall|i: int|
        0 <= i < entries.len() ==> (#[trigger] entries[i]).says(models[i])
}

/// Whether a text is the usable address of a skill.
pub open spec fn is_skill_uri(uri: Seq<char>) -> bool {
    &&& starts_with(uri, "skill://"@)
    &&& uri.len() > "skill://"@.len()
    &&& uri.len() <= MAX_SKILL_URI_CHARS
    &&& forall|i: int|
        0 <= i < uri.len() ==> !control(#[trigger] uri[i]) && !whitespace(uri[i]) && uri[i] != '<'
            && uri[i] != '>'
}

/// Whether a text is the usable address of a skill.
pub fn validated_skill_uri(uri: &[char]) -> (r: bool)
    ensures
        r == is_skill_uri(uri@),
{
    proof {
        reveal_strlit("skill://");
    }
    match without_prefix(uri, "skill://") {
        Some(path) => {
            if path.len() == 0 {
                return false;
            }
        },
        None => {
            return false;
        },
    }
    if uri.len() > MAX_SKILL_URI_CHARS {
        return false;
    }
    let mut i: usize = 0;
    while i < uri.len()
        invariant
            i <= uri@.len(),
            forall|j: int|
                0 <= j < i ==> !control(#[trigger] uri@[j]) && !whitespace(uri@[j]) && uri@[j]
                    != '<' && uri@[j] != '>',
        decreases uri@.len() - i,
    {
        let c = uri[i];
        if is_control(c) || is_whitespace(c) || c == '<' || c == '>' {
            assert(uri@[i as int] == c);
            return false;
        }
        i += 1;
    }
    true
}

/// Whether a text has a control character.
pub open spec fn has_control(s: Seq<char>) -> bool {
    exists|i: int| 0 <= i < s.len() && control(#[trigger] s[i])
}

/// A text on one line, with single spaces between its words; `None` where it is
/// too long or has control characters.
pub open spec fn single_line(value: Seq<char>, max_chars: nat) -> Option<Seq<char>> {
    let line = join(words(value), " "@);
    if line.len() <= max_chars && !has_control(line) {
        Some(line)
    } else {
        None
    }
}

/// Puts a text on one line.
pub fn normalized_single_line(value: &[char], max_chars: usize) -> (r: Option<Vec<char>>)
    ensures
        match r {
            Some(line) => single_line(value@, max_chars as nat) == Some(line@),
            None => single_line(value@, max_chars as nat) is None,
        },
{
    let line = join_parts(&split_words(value), " ");
    if line.len() > max_chars {
        return None;
    }
    let mut i: usize = 0;
    while i < line.len()
        invariant
            i <= line@.len(),
            line@ == join(words(value@), " "@),
            forall|j: int| 0 <= j < i ==> !control(#[trigger] line@[j]),
        decreases line@.len() - i,
    {
        if is_control(line[i]) {
            assert(control(line@[i as int]));
            return None;
        }
        i += 1;
    }
    Some(line)
}

/// A name on one line, without characters that mark up; `None` where there is no
/// such name.
pub open spec fn label(value: Seq<char>, max_chars: nat) -> Option<Seq<char>> {
    match single_line(value, max_chars) {
        Some(line) => if line.len() == 0 || line.contains('&') || line.contains('<')
            || line.contains('>') {
            None
        } else {
            Some(line)
        },
        None => None,
    }
}

/// A name on one line, without characters that mark up.
pub fn normalized_label(value: &[char], max_chars: usize) -> (r: Option<Vec<char>>)
    ensures
        match r {
            Some(line) => label(value@, max_chars as nat) == Some(line@),
            None => label(value@, max_chars as nat) is None,
        },
{
    match normalized_single_line(value, max_chars) {
        Some(line) => {
            if line.len() == 0 || has_char(&line, '&')
                || has_char(&line, '<') || has_char(
                &line,
                '>',
            ) {
                None
            } else {
                Some(line)
            }
        },
        None => None,
    }
}

/// The text that stands for a character in a description.
pub open spec fn description_char(c: char) -> Seq<char> {
    if c == '&' {
        "&amp;"@
    } else if c == '<' {
        "&lt;"@
    } else if c == '>' {
        "&gt;"@
    } else {
        seq![c]
    }
}

/// A text with entities in place of the characters that mark up.
pub open spec fn description_escaped(s: Seq<char>) -> Seq<char>
    decreases s.len(),
{
    if s.len() == 0 {
        Seq::empty()
    } else {
        description_escaped(s.drop_last()) + description_char(s.last())
    }
}

/// A description on one line, with entities in place of markup.
pub open spec fn description_line(value: Seq<char>) -> Option<Seq<char>> {
    match single_line(value, MAX_SKILL_DESCRIPTION_CHARS as nat) {
        Some(line) => Some(description_escaped(line)),
        None => None,
    }
}

/// A description on one line, with entities in place of markup.
pub fn normalized_description(value: &[char]) -> (r: Option<Vec<char>>)
    ensures
        match r {
            Some(line) => description_line(value@) == Some(line@),
            None => description_line(value@) is None,
        },
{
    let line = match normalized_single_line(value, MAX_SKILL_DESCRIPTION_CHARS) {
        Some(line) => line,
        None => {
            return None;
        },
    };
    let mut r: Vec<char> = Vec::new();
    let mut i: usize = 0;
    assert(r@ =~= description_escaped(line@.take(0)));
    while i < line.len()
        invariant
            i <= line@.len(),
            r@ == description_escaped(line@.take(i as int)),
        decreases line@.len() - i,
    {
        let c = line[i];
        let ghost before = r@;
        if c == '&' {
            push_text(&mut r, "&amp;");
        } else if c == '<' {
            push_text(&mut r, "&lt;");
        } else if c == '>' {
            push_text(&mut r, "&gt;");
        } else {
            r.push(c);
        }
        assert(r@ =~= before + description_char(c));
        i += 1;
        assert(line@.take(i as int).drop_last() =~= line@.take(i - 1));
        assert(line@.take(i as int).last() == c);
    }
    assert(line@.take(i as int) =~= line@);
    Some(r)
}

/// The address of the main prompt of a package.
pub open spec fn main_prompt_of(package_uri: Seq<char>) -> Seq<char> {
    trimmed_end(TrimClass::Slash, package_uri) + "/SKILL.md"@
}

/// The address of the main prompt of a package.
pub fn main_prompt_uri(package_uri: &[char]) -> (r: Vec<char>)
    ensures
        r@ == main_prompt_of(package_uri@),
{
    let mut r: Vec<char> = Vec::new();
    push_all(&mut r, trim_end_of(TrimClass::Slash, package_uri));
    push_text(&mut r, "/SKILL.md");
    assert(r@ =~= main_prompt_of(package_uri@));
    r
}

/// The name of the skill of a resource: the user's own by its name alone, others
/// behind the name of their plugin.
pub open spec fn entry_name(meta: SkillMeta) -> Option<Seq<char>> {
    match meta.skill_name {
        Some(skill_name) => match label(skill_name@, MAX_SKILL_NAME_CHARS as nat) {
            Some(skill) => if meta.source matches Some(source) && source@ == "user"@ {
                Some(skill)
            } else {
                match meta.plugin_name {
                    Some(plugin_name) => match label(plugin_name@, MAX_SKILL_NAME_CHARS as nat) {
                        Some(plugin) => if plugin.len() + 1 + skill.len()
                            <= MAX_QUALIFIED_SKILL_NAME_CHARS {
                            Some(plugin + ":"@ + skill)
                        } else {
                            None
                        },
                        None => None,
                    },
                    None => None,
                }
            },
            None => None,
        },
        None => None,
    }
}

/// The catalog entry of a resource; `None` where the resource is malformed.
pub open spec fn entry_of(resource: BackendResource, server: Seq<char>) -> Option<EntryModel> {
    if !is_skill_uri(resource.uri@) {
        None
    } else {
        let description = match resource.description {
            Some(d) => d@,
            None => Seq::empty(),
        };
        match resource.meta {
            Some(meta) => match (entry_name(meta), description_line(description)) {
                (Some(name), Some(description)) => Some(
                    EntryModel {
                        package: resource.uri@,
                        server,
                        name,
                        description,
                        main_prompt: main_prompt_of(resource.uri@),
                    },
                ),
                _ => None,
            },
            None => None,
        }
    }
}

/// The name of the skill of a resource.
fn name_of(meta: &SkillMeta) -> (r: Option<Vec<char>>)
    ensures
        match r {
            Some(name) => entry_name(*meta) == Some(name@),
            None => entry_name(*meta) is None,
        },
{
    let skill = match &meta.skill_name {
        Some(skill_name) => match normalized_label(
            &chars_of(skill_name.as_str()),
            MAX_SKILL_NAME_CHARS,
        ) {
            Some(skill) => skill,
            None => {
                return None;
            },
        },
        None => {
            return None;
        },
    };
    let of_user = match &meta.source {
        Some(source) => same_text(source.as_str(), "user"),
        None => false,
    };
    if of_user {
        return Some(skill);
    }
    let plugin = match &meta.plugin_name {
        Some(plugin_name) => match normalized_label(
            &chars_of(plugin_name.as_str()),
            MAX_SKILL_NAME_CHARS,
        ) {
            Some(plugin) => plugin,
            None => {
                return None;
            },
        },
        None => {
            return None;
        },
    };
    proof {
        reveal_strlit(":");
    }
    let mut name: Vec<char> = Vec::new();
    push_all(&mut name, &plugin);
    push_text(&mut name, ":");
    push_all(&mut name, &skill);
    assert(name@ =~= plugin@ + ":"@ + skill@);
    if name.len() > MAX_QUALIFIED_SKILL_NAME_CHARS {
        return None;
    }
    Some(name)
}

/// The catalog entry of a resource.
pub fn catalog_entry_from_resource(resource: &BackendResource, server_name: &str) -> (r: Option<
    SkillCatalogEntry,
>)
    ensures
        match entry_of(*resource, server_name@) {
            Some(m) => r matches Some(e) && e.says(m),
            None => r is None,
        },
{
    let uri = chars_of(resource.uri.as_str());
    if !validated_skill_uri(&uri) {
        return None;
    }
    let name = match &resource.meta {
        Some(meta) => match name_of(meta) {
            Some(name) => name,
            None => {
                return None;
            },
        },
        None => {
            return None;
        },
    };
    let described = match &resource.description {
        Some(description) => chars_of(description.as_str()),
        None => Vec::new(),
    };
    let description = match normalized_description(&described) {
        Some(description) => description,
        None => {
            return None;
        },
    };
    Some(
        SkillCatalogEntry {
            package: resource.uri.clone(),
            authority: SkillAuthority { kind: SkillSourceKind::Remote, id: server_name.to_owned() },
            name: string_of(&name),
            description: string_of(&description),
            main_prompt: string_of(&main_prompt_uri(&uri)),
            display_path: resource.uri.clone(),
        },
    )
}

/// A description in a catalog holds no angle bracket, whatever the backend said.
pub proof fn law_description_has_no_markup(value: Seq<char>)
    ensures
        description_line(value) matches Some(line) ==> !line.contains('<') && !line.contains('>'),
{
    if let Some(line) = single_line(value, MAX_SKILL_DESCRIPTION_CHARS as nat) {
        lemma_description_escaped(line);
    }
}

proof fn lemma_description_escaped(s: Seq<char>)
    ensures
        forall|i: int|
            0 <= i < description_escaped(s).len() ==> (#[trigger] description_escaped(s)[i]) != '<'
                && description_escaped(s)[i] != '>',
    decreases s.len(),
{
    if s.len() > 0 {
        lemma_description_escaped(s.drop_last());
        reveal_strlit("&amp;");
        reveal_strlit("&lt;");
        reveal_strlit("&gt;");
        let before = description_escaped(s.drop_last());
        let tail = description_char(s.last());
        assert forall|i: int| 0 <= i < description_escaped(s).len() implies (
        #[trigger] description_escaped(s)[i]) != '<' && description_escaped(s)[i] != '>' by {
            if i < before.len() {
                assert(description_escaped(s)[i] == before[i]);
            } else {
                assert(description_escaped(s)[i] == tail[i - before.len()]);
            }
        }
    }
}

/// A text that is put on one line keeps its words, in order, with one space between
/// each two and nothing else around them; it fits the limit and holds no control
/// character. A text whose words do so is not refused.
pub proof fn law_line_keeps_its_words(value: Seq<char>, max_chars: nat)
    ensures
        single_line(value, max_chars) matches Some(line) ==> {
            &&& words(line) == words(value)
            &&& line == join(words(value), " "@)
            &&& line.len() <= max_chars
            &&& forall|i: int| 0 <= i < line.len() ==> !control(#[trigger] line[i])
        },
        single_line(value, max_chars) is None ==> {
            ||| join(words(value), " "@).len() > max_chars
            ||| exists|i: int|
                0 <= i < join(words(value), " "@).len() && control(
                    #[trigger] join(words(value), " "@)[i],
                )
        },
{
    lemma_words_are_words(Seq::empty(), value);
    law_joined_words_are_split_again(words(value));
}

/// A name is one line that is not empty and holds no character that marks up; a
/// line that is so is not refused.
pub proof fn law_names_hold_no_markup(value: Seq<char>, max_chars: nat)
    ensures
        label(value, max_chars) matches Some(name) ==> single_line(value, max_chars) == Some(name)
            && name.len() > 0 && !name.contains('&') && !name.contains('<') && !name.contains('>'),
        label(value, max_chars) is None && single_line(value, max_chars) is Some ==> {
            let line = single_line(value, max_chars)->0;
            line.len() == 0 || line.contains('&') || line.contains('<') || line.contains('>')
        },
{
}

/// A skill of the user goes by its own name; any other skill goes by the name of
/// its plugin, a colon and its own name, together at most 128 characters. A skill
/// without a name, or without that of a plugin where it needs one, has none.
pub proof fn law_plugin_skills_are_qualified(meta: SkillMeta)
    ensures
        ({
            let of_user = meta.source is Some && (meta.source->0)@ == "user"@;
            let skill = match meta.skill_name {
                Some(name) => label(name@, 64),
                None => None,
            };
            let plugin = match meta.plugin_name {
                Some(name) => label(name@, 64),
                None => None,
            };
            &&& of_user ==> entry_name(meta) == skill
            &&& skill is None ==> entry_name(meta) is None
            &&& !of_user && plugin is None ==> entry_name(meta) is None
            &&& !of_user && skill is Some && plugin is Some && skill->0.len() + plugin->0.len()
                <= 127 ==> entry_name(meta) == Some(plugin->0 + ":"@ + skill->0)
            &&& !of_user && skill is Some && plugin is Some && skill->0.len() + plugin->0.len()
                > 127 ==> entry_name(meta) is None
        }),
{
}

/// An address is usable where it has something behind `skill://`, at most 1024
/// characters in all, and neither control characters nor white space nor angle
/// brackets.
pub proof fn law_usable_addresses(uri: Seq<char>, i: int)
    ensures
        is_skill_uri(uri) ==> starts_with(uri, "skill://"@) && 8 < uri.len() <= 1024,
        is_skill_uri(uri) && 0 <= i < uri.len() ==> !control(uri[i]) && !whitespace(uri[i])
            && uri[i] != '<' && uri[i] != '>',
        starts_with(uri, "skill://"@) && 8 < uri.len() <= 1024 && !is_skill_uri(uri) ==> exists|
            j: int,
        |
            0 <= j < uri.len() && (control(#[trigger] uri[j]) || whitespace(uri[j]) || uri[j] == '<'
                || uri[j] == '>'),
{
    reveal_strlit("skill://");
}

/// The main prompt of a package is `SKILL.md` right under its address, however many
/// slashes the address ends in.
pub proof fn law_main_prompt_stands_right_under_its_package(uri: Seq<char>, n: nat)
    requires
        uri.len() > 0,
        uri.last() != '/',
    ensures
        main_prompt_of(uri) == uri + "/SKILL.md"@,
        main_prompt_of(uri + Seq::new(n, |i: int| '/')) == uri + "/SKILL.md"@,
    decreases n,
{
    let padded = uri + Seq::new(n, |i: int| '/');
    if n == 0 {
        assert(padded =~= uri);
    } else {
        let m = (n - 1) as nat;
        law_main_prompt_stands_right_under_its_package(uri, m);
        assert(padded.last() == '/');
        assert(padded.drop_last() =~= uri + Seq::new(m, |i: int| '/'));
    }
}

/// A resource has an entry exactly where its address is usable, it says something
/// of its skill, the skill has a name, and its description fits on one line; a
/// missing description counts as an empty one. The entry then names the address,
/// the server, and the main prompt right under the address.
pub proof fn law_well_formed_resources_have_entries(resource: BackendResource, server: Seq<char>)
    ensures
        ({
            let text = match resource.description {
                Some(d) => d@,
                None => Seq::empty(),
            };
            let entry = entry_of(resource, server);
            &&& entry is Some <==> is_skill_uri(resource.uri@) && resource.meta is Some
                && entry_name(resource.meta->0) is Some && single_line(text, 1024) is Some
            &&& entry matches Some(e) ==> {
                &&& e.package == resource.uri@
                &&& e.server == server
                &&& Some(e.name) == entry_name(resource.meta->0)
                &&& e.description == description_escaped(single_line(text, 1024)->0)
                &&& e.main_prompt == main_prompt_of(resource.uri@)
            }
        }),
{
}

/// A description is written character by character: the three characters that mark
/// up become their entities, and every other one stays.
pub proof fn law_markup_becomes_entities(a: Seq<char>, b: Seq<char>, c: char)
    ensures
        description_escaped(Seq::empty()) == Seq::<char>::empty(),
        description_escaped(a + b) == description_escaped(a) + description_escaped(b),
        description_escaped(seq!['&']) == "&amp;"@,
        description_escaped(seq!['<']) == "&lt;"@,
        description_escaped(seq!['>']) == "&gt;"@,
        c != '&' && c != '<' && c != '>' ==> description_escaped(seq![c]) == seq![c],
    decreases b.len(),
{
    reveal_with_fuel(description_escaped, 2);
    if b.len() == 0 {
        assert(a + b =~= a);
        assert(description_escaped(a) + description_escaped(b) =~= description_escaped(a));
    } else {
        law_markup_becomes_entities(a, b.drop_last(), c);
        assert((a + b).drop_last() =~= a + b.drop_last());
        assert(description_escaped(a + b) =~= description_escaped(a) + description_escaped(b));
    }
    lemma_single_escape('&');
    lemma_single_escape('<');
    lemma_single_escape('>');
    lemma_single_escape(c);
}

proof fn lemma_single_escape(c: char)
    ensures
        description_escaped(seq![c]) == description_char(c),
{
    reveal_with_fuel(description_escaped, 2);
    assert(seq![c].drop_last() =~= Seq::<char>::empty());
    assert(description_escaped(seq![c]) =~= description_char(c));
}

/// An entry says one thing. It shows the address of its package, and a remote
/// server answers for it.
pub proof fn law_entry_says_one_thing(e: SkillCatalogEntry, a: EntryModel, b: EntryModel)
    requires
        e.says(a),
    ensures
        e.says(b) <==> a == b,
        e.display_path@ == e.package@,
        e.authority.kind == SkillSourceKind::Remote,
        a.package == e.package@ && a.server == e.authority.id@ && a.name == e.name@,
        a.description == e.description@ && a.main_prompt == e.main_prompt@,
        all_say(seq![e], seq![a]),
        !all_say(seq![e], Seq::empty()),
{
}

} // verus!
