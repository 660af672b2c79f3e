//! The listing of skills, page by page.
use vstd::prelude::*;
use super::catalog::all_say;
use super::catalog::catalog_entry_from_resource;
use super::catalog::entry_of;
use super::catalog::BackendResource;
use super::catalog::EntryModel;
use super::catalog::SkillCatalogEntry;
use super::catalog::BACKEND_SKILL_MIME_TYPE;
use crate::text::chars::chars_of;
use crate::text::chars::push_text;
use crate::text::chars::same_text;
use crate::text::chars::string_of;
use crate::text::number::decimal;
use crate::text::number::push_decimal;

verus! {

/// How many pages are asked for.
pub const MAX_RESOURCE_PAGES: usize = 10;

/// How many skills are taken up.
pub const MAX_BACKEND_SKILLS: usize = 100;

/// The provider of the skills of a server.
#[derive(Debug, Clone, PartialEq, Eq)]
pub struct BackendSkillProvider {
    /// The server.
    pub server_name: String,
}

impl BackendSkillProvider {
    /// The provider of the skills of a server.
    pub fn new(server_name: String) -> (r: Self)
        ensures
            r.server_name == server_name,
    {
        BackendSkillProvider { server_name }
    }
}

/// The skills of a server, and what was noticed while listing them.
#[derive(Debug, Clone, PartialEq, Eq)]
pub struct SkillCatalog {
    /// The skills.
    pub entries: Vec<SkillCatalogEntry>,
    /// The warnings.
    pub warnings: Vec<String>,
}

/// Why skills could not be provided.
#[derive(Debug, Clone, PartialEq, Eq)]
pub struct SkillProviderError {
    /// The reason.
    pub message: String,
}

/// A listing as mathematical values.
#[verifier::ext_equal]
pub struct ListingModel {
    /// The server.
    pub server: Seq<char>,
    /// The entries so far.
    pub entries: Seq<EntryModel>,
    /// The cursors that the server has returned.
    pub cursors: Seq<Seq<char>>,
    /// The cursor of the next page, if there is one besides the first.
    pub cursor: Option<Seq<char>>,
    /// How many skill resources were seen.
    pub seen: nat,
    /// How many of them were malformed.
    pub skipped: nat,
    /// Whether there were more than are taken up.
    pub truncated: bool,
    /// Whether the server has returned a cursor twice.
    pub repeated: bool,
    /// How many pages were received.
    pub pages: nat,
    /// Whether no further page is asked for.
    pub done: bool,
}

/// Whether a resource is a skill.
pub open spec fn is_skill(resource: BackendResource) -> bool {
    resource.mime_type matches Some(t) && t@ == BACKEND_SKILL_MIME_TYPE@
}

impl ListingModel {
    /// The bounds on what is taken up.
    pub open spec fn wf(self) -> bool {
        &&& self.seen <= MAX_BACKEND_SKILLS
        &&& self.entries.len() + self.skipped == self.seen
        &&& self.pages <= MAX_RESOURCE_PAGES
        &&& !self.done ==> self.pages < MAX_RESOURCE_PAGES
        &&& self.cursors.len() <= self.pages
        &&& self.cursors.no_duplicates()
        &&& self.cursor matches Some(c) ==> self.cursors.contains(c)
    }

    /// The listing after the resources of a page, in order, up to the limit.
    pub open spec fn after_resources(self, resources: Seq<BackendResource>) -> Self
        decreases resources.len(),
    {
        if resources.len() == 0 {
            self
        } else if !is_skill(resources[0]) {
            self.after_resources(resources.skip(1))
        } else if self.seen >= MAX_BACKEND_SKILLS {
            ListingModel { truncated: true, ..self }
        } else {
            match entry_of(resources[0], self.server) {
                Some(entry) => ListingModel {
                    entries: self.entries.push(entry),
                    seen: self.seen + 1,
                    ..self
                },
                None => ListingModel { skipped: self.skipped + 1, seen: self.seen + 1, ..self },
            }.after_resources(resources.skip(1))
        }
    }

    /// The listing after the cursor that came with a page.
    pub open spec fn after_cursor(self, next_cursor: Option<Seq<char>>) -> Self {
        let counted = ListingModel { pages: self.pages + 1, ..self };
        if self.truncated {
            ListingModel { done: true, ..counted }
        } else {
            match next_cursor {
                None => ListingModel { cursor: None, done: true, ..counted },
                Some(c) => if self.cursors.contains(c) {
                    ListingModel { cursor: None, repeated: true, done: true, ..counted }
                } else {
                    ListingModel {
                        cursor: Some(c),
                        cursors: self.cursors.push(c),
                        done: counted.pages == MAX_RESOURCE_PAGES,
                        ..counted
                    }
                },
            }
        }
    }

    /// The listing after a page.
    pub open spec fn after_page(
        self,
        resources: Seq<BackendResource>,
        next_cursor: Option<Seq<char>>,
    ) -> Self {
        self.after_resources(resources).after_cursor(next_cursor)
    }

    /// The warnings of the listing.
    pub open spec fn warnings(self) -> Seq<Seq<char>> {
        (if self.repeated {
            seq![
                "Backend skill resource pagination from "@ + self.server
                    + " returned a duplicate cursor."@,
            ]
        } else {
            Seq::empty()
        }) + (if self.cursor is Some || self.truncated {
            seq![
                "Backend skill discovery from "@ + self.server
                    + " was truncated at 100 skills or 10 resource pages."@,
            ]
        } else {
            Seq::empty()
        }) + (if self.skipped > 0 {
            seq![
                "Skipped "@ + decimal(self.skipped) + " malformed backend skill resources from "@
                    + self.server + "."@,
            ]
        } else {
            Seq::empty()
        })
    }
}

/// A listing in progress.
pub struct SkillListing {
    server_name: String,
    entries: Vec<SkillCatalogEntry>,
    models: Ghost<Seq<EntryModel>>,
    seen_cursors: Vec<String>,
    cursor: Option<String>,
    seen: usize,
    skipped: usize,
    truncated: bool,
    repeated: bool,
    pages: usize,
    done: bool,
}

impl View for SkillListing {
    type V = ListingModel;

    closed spec fn view(&self) -> ListingModel {
        ListingModel {
            server: self.server_name@,
            entries: self.models@,
            cursors: self.seen_cursors.deep_view(),
            cursor: self.cursor.deep_view(),
            seen: self.seen as nat,
            skipped: self.skipped as nat,
            truncated: self.truncated,
            repeated: self.repeated,
            pages: self.pages as nat,
            done: self.done,
        }
    }
}

impl SkillListing {
    /// The entries are those of the model, and the bounds hold.
    pub closed spec fn wf(self) -> bool {
        all_say(self.entries@, self.models@) && self@.wf()
    }

    /// A listing that has not begun.
    pub fn new(provider: &BackendSkillProvider) -> (r: Self)
        ensures
            r.wf(),
            r@ == (ListingModel {
                server: provider.server_name@,
                entries: Seq::empty(),
                cursors: Seq::empty(),
                cursor: None,
                seen: 0,
                skipped: 0,
                truncated: false,
                repeated: false,
                pages: 0,
                done: false,
            }),
    {
        let r = SkillListing {
            server_name: provider.server_name.clone(),
            entries: Vec::new(),
            models: Ghost(Seq::empty()),
            seen_cursors: Vec::new(),
            cursor: None,
            seen: 0,
            skipped: 0,
            truncated: false,
            repeated: false,
            pages: 0,
            done: false,
        };
        assert(r.seen_cursors.deep_view() =~= Seq::empty());
        r
    }

    /// The page to ask for: none where the listing is done, the first one where
    /// there is no cursor.
    pub fn next_page(&self) -> (r: Option<Option<&String>>)
        requires
            self.wf(),
        ensures
            r is None == self@.done,
            r matches Some(c) ==> (c is None == self@.cursor is None) && (c matches Some(text)
                ==> self@.cursor == Some(text@)),
    {
        if self.done {
            None
        } else {
            Some(self.cursor.as_ref())
        }
    }

    /// Takes up a page.
    pub fn page_received(&mut self, resources: &[BackendResource], next_cursor: Option<String>)
        requires
            old(self).wf(),
            !old(self)@.done,
        ensures
            final(self).wf(),
            final(self)@ == old(self)@.after_page(resources@, next_cursor.deep_view()),
    {
        self.take_resources(resources);
        let ghost here = self@;
        self.pages = self.pages + 1;
        if self.truncated {
            self.done = true;
            return;
        }
        match next_cursor {
            None => {
                self.cursor = None;
                self.done = true;
            },
            Some(c) => {
                if self.has_cursor(c.as_str()) {
                    self.cursor = None;
                    self.repeated = true;
                    self.done = true;
                } else {
                    let ghost text = c@;
                    self.seen_cursors.push(c.clone());
                    self.cursor = Some(c);
                    self.done = self.pages == MAX_RESOURCE_PAGES;
                    proof {
                        assert(self.seen_cursors.deep_view() =~= here.cursors.push(text));
                        assert(self@.cursors[here.cursors.len() as int] == text);
                        assert(self@ == here.after_cursor(Some(text)));
                    }
                }
            },
        }
    }

    /// Whether the server has returned the cursor before.
    fn has_cursor(&self, cursor: &str) -> (r: bool)
        ensures
            r == self@.cursors.contains(cursor@),
    {
        let mut i: usize = 0;
        while i < self.seen_cursors.len()
            invariant
                i <= self.seen_cursors@.len(),
                forall|j: int| 0 <= j < i ==> self.seen_cursors.deep_view()[j] != cursor@,
            decreases self.seen_cursors@.len() - i,
        {
            assert(self.seen_cursors.deep_view()[i as int] == self.seen_cursors@[i as int]@);
            if same_text(self.seen_cursors[i].as_str(), cursor) {
                return true;
            }
            i += 1;
        }
        false
    }

    /// Takes up the resources of a page.
    fn take_resources(&mut self, resources: &[BackendResource])
        requires
            old(self).wf(),
            !old(self)@.done,
        ensures
            final(self).wf(),
            final(self)@ == old(self)@.after_resources(resources@),
            final(self)@.pages == old(self)@.pages,
            final(self)@.done == old(self)@.done,
            final(self)@.cursors == old(self)@.cursors,
    {
        let mut i: usize = 0;
        assert(resources@.skip(0) =~= resources@);
        while i < resources.len()
            invariant
                i <= resources@.len(),
                self.wf(),
                self@.pages == old(self)@.pages,
                self@.done == old(self)@.done,
                self@.cursors == old(self)@.cursors,
                self@.after_resources(resources@.skip(i as int)) == old(self)@.after_resources(
                    resources@,
                ),
            decreases resources@.len() - i,
        {
            let resource = &resources[i];
            let ghost here = self@;
            let ghost rest = resources@.skip(i as int);
            assert(rest[0] == *resource);
            assert(rest.skip(1) =~= resources@.skip(i + 1));
            i += 1;
            let skill = match &resource.mime_type {
                Some(t) => same_text(t.as_str(), BACKEND_SKILL_MIME_TYPE),
                None => false,
            };
            if skill {
                if self.seen >= MAX_BACKEND_SKILLS {
                    self.truncated = true;
                    return;
                }
                self.seen = self.seen + 1;
                match catalog_entry_from_resource(resource, self.server_name.as_str()) {
                    Some(entry) => {
                        let ghost m = entry_of(*resource, here.server)->0;
                        self.entries.push(entry);
                        proof {
                            self.models@ = self.models@.push(m);
                        }
                    },
                    None => {
                        self.skipped = self.skipped + 1;
                    },
                }
            }
        }
        assert(resources@.skip(i as int).len() == 0);
    }

    /// The catalog that the listing has come to.
    pub fn finish(self) -> (r: SkillCatalog)
        requires
            self.wf(),
        ensures
            all_say(r.entries@, self@.entries),
            r.warnings.deep_view() == self@.warnings(),
    {
        let mut warnings: Vec<String> = Vec::new();
        let ghost m = self@;
        let server = self.server_name.as_str();
        if self.repeated {
            let mut text = chars_of("Backend skill resource pagination from ");
            push_text(&mut text, server);
            push_text(&mut text, " returned a duplicate cursor.");
            warnings.push(string_of(&text));
        }
        if self.cursor.is_some() || self.truncated {
            let mut text = chars_of("Backend skill discovery from ");
            push_text(&mut text, server);
            push_text(&mut text, " was truncated at 100 skills or 10 resource pages.");
            warnings.push(string_of(&text));
        }
        if self.skipped > 0 {
            let mut text = chars_of("Skipped ");
            push_decimal(&mut text, self.skipped as u64);
            push_text(&mut text, " malformed backend skill resources from ");
            push_text(&mut text, server);
            push_text(&mut text, ".");
            warnings.push(string_of(&text));
        }
        assert(warnings.deep_view() =~= m.warnings());
        SkillCatalog { entries: self.entries, warnings }
    }
}

/// The catalog where the session has no connection to the server: empty.
pub fn empty_catalog() -> (r: SkillCatalog)
    ensures
        r.entries@.len() == 0,
        r.warnings@.len() == 0,
{
    SkillCatalog { entries: Vec::new(), warnings: Vec::new() }
}

/// The error where a page could not be had.
pub fn list_error(provider: &BackendSkillProvider, reason: &str) -> (r: SkillProviderError)
    ensures
        r.message@ == "failed to list backend skill resources from "@ + provider.server_name@
            + ": "@ + reason@,
{
    let mut text = chars_of("failed to list backend skill resources from ");
    push_text(&mut text, provider.server_name.as_str());
    push_text(&mut text, ": ");
    push_text(&mut text, reason);
    SkillProviderError { message: string_of(&text) }
}

/// Each page keeps the bounds of a listing: at most a hundred skills, at most ten
/// pages, and no cursor used twice.
pub proof fn law_listing_stays_within_its_bounds(
    m: ListingModel,
    resources: Seq<BackendResource>,
    next_cursor: Option<Seq<char>>,
)
    requires
        m.wf(),
        !m.done,
    ensures
        m.after_page(resources, next_cursor).wf(),
        m.after_page(resources, next_cursor).entries.len() <= MAX_BACKEND_SKILLS,
        m.after_page(resources, next_cursor).pages == m.pages + 1,
{
    lemma_after_resources(m, resources);
    let n = m.after_resources(resources);
    if let Some(c) = next_cursor {
        if !n.cursors.contains(c) {
            assert(n.cursors.push(c)[n.cursors.len() as int] == c);
        }
    }
}

proof fn lemma_after_resources(m: ListingModel, resources: Seq<BackendResource>)
    requires
        m.seen <= MAX_BACKEND_SKILLS,
        m.entries.len() + m.skipped == m.seen,
    ensures
        ({
            let n = m.after_resources(resources);
            &&& n.seen <= MAX_BACKEND_SKILLS
            &&& n.entries.len() + n.skipped == n.seen
            &&& n.pages == m.pages
            &&& n.done == m.done
            &&& n.cursors == m.cursors
            &&& n.cursor == m.cursor
            &&& n.repeated == m.repeated
        }),
    decreases resources.len(),
{
    if resources.len() > 0 {
        let rest = resources.skip(1);
        if !is_skill(resources[0]) {
            lemma_after_resources(m, rest);
        } else if m.seen < MAX_BACKEND_SKILLS {
            match entry_of(resources[0], m.server) {
                Some(entry) => lemma_after_resources(
                    ListingModel { entries: m.entries.push(entry), seen: m.seen + 1, ..m },
                    rest,
                ),
                None => lemma_after_resources(
                    ListingModel { skipped: m.skipped + 1, seen: m.seen + 1, ..m },
                    rest,
                ),
            }
        }
    }
}

/// A listing that comes to its end without a warning has taken up every skill of
/// its last page.
pub proof fn law_no_warning_means_nothing_left_out(
    m: ListingModel,
    resources: Seq<BackendResource>,
    next_cursor: Option<Seq<char>>,
)
    requires
        m.wf(),
        !m.done,
        m.after_page(resources, next_cursor).done,
        m.after_page(resources, next_cursor).warnings().len() == 0,
    ensures
        next_cursor is None,
        !m.after_page(resources, next_cursor).truncated,
        m.after_page(resources, next_cursor).skipped == 0,
        m.after_page(resources, next_cursor).entries.len() == m.after_page(
            resources,
            next_cursor,
        ).seen,
{
    lemma_after_resources(m, resources);
}

/// The resources of the skill type, in order.
pub open spec fn skills_of(resources: Seq<BackendResource>) -> Seq<BackendResource> {
    resources.filter(
        |r: BackendResource| r.mime_type is Some && (r.mime_type->0)@ == "mcp/skill"@,
    )
}

/// The entries of the well-formed among the resources, in order.
pub open spec fn entries_of(resources: Seq<BackendResource>, server: Seq<char>) -> Seq<EntryModel> {
    resources.filter(|r: BackendResource| entry_of(r, server) is Some).map_values(
        |r: BackendResource| entry_of(r, server)->0,
    )
}

proof fn lemma_skills_of(resources: Seq<BackendResource>)
    requires
        resources.len() > 0,
    ensures
        skills_of(resources) == (if is_skill(resources[0]) {
            seq![resources[0]] + skills_of(resources.skip(1))
        } else {
            skills_of(resources.skip(1))
        }),
{
    let skill = |r: BackendResource| r.mime_type is Some && (r.mime_type->0)@ == "mcp/skill"@;
    let first = seq![resources[0]];
    assert(resources =~= first + resources.skip(1));
    Seq::filter_distributes_over_add(first, resources.skip(1), skill);
    assert(first.drop_last() =~= Seq::empty());
    assert(first.filter(skill) =~= if is_skill(resources[0]) {
        first
    } else {
        Seq::empty()
    }) by {
        reveal(Seq::filter);
        assert(first.drop_last().filter(skill) =~= Seq::empty());
    }
    assert(skills_of(resources) =~= first.filter(skill) + skills_of(resources.skip(1)));
}

proof fn lemma_entries_of(resources: Seq<BackendResource>, server: Seq<char>)
    requires
        resources.len() > 0,
    ensures
        entries_of(resources, server) == (match entry_of(resources[0], server) {
            Some(entry) => seq![entry] + entries_of(resources.skip(1), server),
            None => entries_of(resources.skip(1), server),
        }),
{
    let formed = |r: BackendResource| entry_of(r, server) is Some;
    let first = seq![resources[0]];
    assert(resources =~= first + resources.skip(1));
    Seq::filter_distributes_over_add(first, resources.skip(1), formed);
    assert(first.filter(formed) =~= if formed(resources[0]) {
        first
    } else {
        Seq::empty()
    }) by {
        reveal(Seq::filter);
        assert(first.drop_last() =~= Seq::empty());
        assert(first.drop_last().filter(formed) =~= Seq::empty());
    }
    assert(entries_of(resources, server) =~= match entry_of(resources[0], server) {
        Some(entry) => seq![entry] + entries_of(resources.skip(1), server),
        None => entries_of(resources.skip(1), server),
    });
}

proof fn lemma_after_skills(m: ListingModel, skills: Seq<BackendResource>)
    requires
        m.seen <= MAX_BACKEND_SKILLS,
        forall|i: int| 0 <= i < skills.len() ==> is_skill(#[trigger] skills[i]),
    ensures
        ({
            let n = m.after_resources(skills);
            let room = MAX_BACKEND_SKILLS - m.seen;
            let taken = skills.take(
                if skills.len() < room {
                    skills.len() as int
                } else {
                    room
                },
            );
            &&& n.seen == m.seen + taken.len()
            &&& n.entries == m.entries + entries_of(taken, m.server)
            &&& n.skipped + entries_of(taken, m.server).len() == m.skipped + taken.len()
            &&& n.truncated == (m.truncated || skills.len() > room)
            &&& n.server == m.server
            &&& n.cursors == m.cursors
            &&& n.cursor == m.cursor
            &&& n.repeated == m.repeated
            &&& n.pages == m.pages
            &&& n.done == m.done
        }),
    decreases skills.len(),
{
    let room = MAX_BACKEND_SKILLS - m.seen;
    let k = if skills.len() < room {
        skills.len() as int
    } else {
        room
    };
    let taken = skills.take(k);
    if k == 0 {
        assert(taken =~= Seq::empty());
        assert(entries_of(taken, m.server) =~= Seq::empty()) by {
            reveal(Seq::filter);
        }
        assert(m.entries + entries_of(taken, m.server) =~= m.entries);
    } else {
        let rest = skills.skip(1);
        assert(is_skill(skills[0]));
        assert forall|i: int| 0 <= i < rest.len() implies is_skill(#[trigger] rest[i]) by {
            assert(rest[i] == skills[i + 1]);
        }
        let next = match entry_of(skills[0], m.server) {
            Some(entry) => ListingModel {
                entries: m.entries.push(entry),
                seen: m.seen + 1,
                ..m
            },
            None => ListingModel { skipped: m.skipped + 1, seen: m.seen + 1, ..m },
        };
        lemma_after_skills(next, rest);
        assert(m.after_resources(skills) == next.after_resources(rest));
        lemma_entries_of(taken, m.server);
        assert(taken.skip(1) =~= rest.take(k - 1));
        assert(m.after_resources(skills).entries =~= m.entries + entries_of(taken, m.server));
    }
}

/// Resources that are not of the skill type do not matter: what a page leads to is
/// what its skills alone lead to.
pub proof fn law_other_resources_do_not_matter(
    m: ListingModel,
    resources: Seq<BackendResource>,
    next_cursor: Option<Seq<char>>,
)
    ensures
        m.after_page(resources, next_cursor) == m.after_page(skills_of(resources), next_cursor),
{
    lemma_skills_alone(m, resources);
}

proof fn lemma_skills_alone(m: ListingModel, resources: Seq<BackendResource>)
    ensures
        m.after_resources(resources) == m.after_resources(skills_of(resources)),
    decreases resources.len(),
{
    if resources.len() == 0 {
        assert(skills_of(resources) =~= Seq::empty()) by {
            reveal(Seq::filter);
        }
    } else {
        let rest = resources.skip(1);
        lemma_skills_of(resources);
        let skills = skills_of(resources);
        if is_skill(resources[0]) {
            assert(skills[0] == resources[0]);
            assert(skills.skip(1) =~= skills_of(rest));
            if m.seen < MAX_BACKEND_SKILLS {
                match entry_of(resources[0], m.server) {
                    Some(entry) => lemma_skills_alone(
                        ListingModel { entries: m.entries.push(entry), seen: m.seen + 1, ..m },
                        rest,
                    ),
                    None => lemma_skills_alone(
                        ListingModel { skipped: m.skipped + 1, seen: m.seen + 1, ..m },
                        rest,
                    ),
                }
            }
        } else {
            lemma_skills_alone(m, rest);
        }
    }
}

/// Each page adds its resources of the skill type, up to a hundred in all: so many
/// more are seen, every well-formed one among them has its entry, in order behind
/// the earlier ones, every other one is counted as malformed, and the listing is
/// truncated exactly where one more was there.
pub proof fn law_every_skill_of_a_page_is_taken_up(
    m: ListingModel,
    resources: Seq<BackendResource>,
    next_cursor: Option<Seq<char>>,
)
    requires
        m.seen <= 100,
        !m.truncated,
    ensures
        ({
            let n = m.after_page(resources, next_cursor);
            let skills = skills_of(resources);
            let room = 100 - m.seen;
            let taken = skills.take(
                if skills.len() < room {
                    skills.len() as int
                } else {
                    room
                },
            );
            &&& n.seen == m.seen + taken.len()
            &&& n.entries == m.entries + entries_of(taken, m.server)
            &&& n.skipped - m.skipped == taken.len() - entries_of(taken, m.server).len()
            &&& n.truncated <==> skills.len() > room
            &&& n.server == m.server
        }),
{
    let skill = |r: BackendResource| r.mime_type is Some && (r.mime_type->0)@ == "mcp/skill"@;
    let skills = skills_of(resources);
    lemma_skills_alone(m, resources);
    assert forall|i: int| 0 <= i < skills.len() implies is_skill(#[trigger] skills[i]) by {
        resources.lemma_filter_pred(skill, i);
    }
    lemma_after_skills(m, skills);
}

/// Each page counts, and the listing goes on exactly with a cursor that the server
/// has not returned before, while no skill is left out and fewer than ten pages
/// were received: then the next page is asked for with that cursor. A cursor that
/// comes back is noted, and ends the listing as the lack of one does.
pub proof fn law_listing_goes_on_with_new_cursors_only(
    m: ListingModel,
    resources: Seq<BackendResource>,
    next_cursor: Option<Seq<char>>,
)
    requires
        m.seen <= 100,
        m.entries.len() + m.skipped == m.seen,
        !m.truncated,
        m.pages < 10,
        !m.done,
    ensures
        ({
            let n = m.after_page(resources, next_cursor);
            let fresh = next_cursor is Some && !m.cursors.contains(next_cursor->0);
            &&& n.pages == m.pages + 1
            &&& !n.done <==> fresh && !n.truncated && n.pages < 10
            &&& fresh && !n.truncated ==> n.cursor == next_cursor && n.cursors == m.cursors.push(
                next_cursor->0,
            )
            &&& !fresh && !n.truncated ==> n.cursor is None && n.cursors == m.cursors
            &&& n.repeated <==> m.repeated || (next_cursor is Some && !fresh && !n.truncated)
        }),
{
    lemma_after_resources(m, resources);
}

/// There is one warning for each thing that went wrong, each names the server, and
/// they come in this order: a cursor that came back, skills or pages that were left
/// out, and how many skills were malformed.
pub proof fn law_each_mishap_has_its_warning(m: ListingModel)
    ensures
        ({
            let again = "Backend skill resource pagination from "@ + m.server
                + " returned a duplicate cursor."@;
            let cut = "Backend skill discovery from "@ + m.server
                + " was truncated at 100 skills or 10 resource pages."@;
            let bad = "Skipped "@ + decimal(m.skipped)
                + " malformed backend skill resources from "@ + m.server + "."@;
            let left_out = m.cursor is Some || m.truncated;
            &&& m.repeated ==> m.warnings().len() > 0 && m.warnings()[0] == again
            &&& left_out && !m.repeated ==> m.warnings().len() > 0 && m.warnings()[0] == cut
            &&& left_out && m.repeated ==> m.warnings().len() > 1 && m.warnings()[1] == cut
            &&& m.skipped > 0 ==> m.warnings().len() > 0 && m.warnings().last() == bad
            &&& m.warnings().len() == (if m.repeated {
                1int
            } else {
                0
            }) + (if left_out {
                1int
            } else {
                0
            }) + (if m.skipped > 0 {
                1int
            } else {
                0
            })
        }),
{
}

} // verus!
