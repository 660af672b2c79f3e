//! The plugin and the skill that a script belongs to.
use vstd::prelude::*;
use crate::text::chars::chars_of;
use crate::text::chars::same_text;
use crate::text::chars::string_of;
use crate::text::split::join;
use crate::text::split::join_parts;
use crate::text::split::pieces;

verus! {

/// A component of a canonical path.
pub struct PathPart {
    /// Whether the component names something below the root.
    pub normal: bool,
    /// The bytes of the component.
    pub raw: Vec<u8>,
    /// The component for display.
    pub text: String,
}

/// The bytes and the nature of a component, by which components agree.
pub open spec fn part_key(p: PathPart) -> (bool, Seq<u8>) {
    (p.normal, p.raw@)
}

/// The components of a path, by which paths agree.
pub open spec fn path_keys(path: Seq<PathPart>) -> Seq<(bool, Seq<u8>)> {
    path.map_values(|p: PathPart| part_key(p))
}

/// Whether `path` is `dir` or lies below it.
pub open spec fn lies_under(path: Seq<PathPart>, dir: Seq<PathPart>) -> bool {
    dir.len() <= path.len() && path_keys(path).take(dir.len() as int) == path_keys(dir)
}

/// The names in a path, for display.
pub open spec fn names(path: Seq<PathPart>) -> Seq<Seq<char>>
    decreases path.len(),
{
    if path.len() == 0 {
        Seq::empty()
    } else if path.last().normal {
        names(path.drop_last()).push(path.last().text@)
    } else {
        names(path.drop_last())
    }
}

/// The names in a path with slashes between them.
pub open spec fn relative_text(path: Seq<PathPart>) -> Seq<char> {
    join(names(path), "/"@)
}

/// A plugin and its directory, where that could be found.
pub struct PluginRoot {
    /// The plugin.
    pub plugin_id: String,
    /// Its canonical directory.
    pub directory: Option<Vec<PathPart>>,
}

/// A skill and its scripts directory, where that could be found.
pub struct SkillScripts {
    /// The name of the skill.
    pub name: String,
    /// The path of the skill's description.
    pub skill_path: String,
    /// The plugin that the skill belongs to.
    pub plugin_id: Option<String>,
    /// Whether the skill is enabled.
    pub enabled: bool,
    /// The canonical directory of the skill's scripts.
    pub scripts_directory: Option<Vec<PathPart>>,
}

/// The skill that a script belongs to.
#[derive(Debug, Clone, PartialEq, Eq)]
pub struct PluginScriptSkill {
    /// The name of the skill.
    pub skill_name: String,
    /// The path of the skill's description.
    pub skill_path: String,
}

/// The plugin, and the skill if any, that a script belongs to.
#[derive(Debug, Clone, PartialEq, Eq)]
pub struct ResolvedPluginScript {
    /// The plugin.
    pub plugin_id: String,
    /// The path of the script below the plugin's directory.
    pub script_path: String,
    /// The skill.
    pub skill: Option<PluginScriptSkill>,
}

/// Whether a script lies in the directory of a plugin.
pub open spec fn in_root(script: Seq<PathPart>, root: PluginRoot) -> bool {
    root.directory matches Some(dir) && lies_under(script, dir@)
}

/// The position of the innermost plugin directory that a script lies in; of
/// several equal ones the last.
pub open spec fn best_root(script: Seq<PathPart>, roots: Seq<PluginRoot>) -> Option<int>
    decreases roots.len(),
{
    if roots.len() == 0 {
        None
    } else {
        let earlier = best_root(script, roots.drop_last());
        let last = roots.last();
        if !in_root(script, last) {
            earlier
        } else {
            match earlier {
                Some(i) if roots[i].directory->0@.len() > last.directory->0@.len() => Some(i),
                _ => Some(roots.len() - 1),
            }
        }
    }
}

/// Whether a script lies in the scripts directory of an enabled skill of a plugin.
pub open spec fn in_skill(script: Seq<PathPart>, plugin_id: Seq<char>, skill: SkillScripts) -> bool {
    &&& skill.plugin_id matches Some(id) && id@ == plugin_id
    &&& skill.enabled
    &&& skill.scripts_directory matches Some(dir) && lies_under(script, dir@)
}

/// The position of the first skill of the plugin whose scripts directory the
/// script lies in.
pub open spec fn first_skill(
    script: Seq<PathPart>,
    plugin_id: Seq<char>,
    skills: Seq<SkillScripts>,
) -> Option<int>
    decreases skills.len(),
{
    if skills.len() == 0 {
        None
    } else {
        match first_skill(script, plugin_id, skills.drop_last()) {
            Some(i) => Some(i),
            None => if in_skill(script, plugin_id, skills.last()) {
                Some(skills.len() - 1)
            } else {
                None
            },
        }
    }
}

/// Whether two components agree.
fn same_part(a: &PathPart, b: &PathPart) -> (r: bool)
    ensures
        r == (part_key(*a) == part_key(*b)),
{
    if a.normal != b.normal || a.raw.len() != b.raw.len() {
        return false;
    }
    let mut i: usize = 0;
    while i < a.raw.len()
        invariant
            i <= a.raw@.len(),
            a.raw@.len() == b.raw@.len(),
            forall|j: int| 0 <= j < i ==> a.raw@[j] == b.raw@[j],
        decreases a.raw@.len() - i,
    {
        if a.raw[i] != b.raw[i] {
            return false;
        }
        i += 1;
    }
    assert(a.raw@ =~= b.raw@);
    true
}

/// Whether `path` is `dir` or lies below it.
pub fn is_under(path: &[PathPart], dir: &[PathPart]) -> (r: bool)
    ensures
        r == lies_under(path@, dir@),
{
    if dir.len() > path.len() {
        return false;
    }
    let mut i: usize = 0;
    while i < dir.len()
        invariant
            i <= dir@.len() <= path@.len(),
            forall|j: int| 0 <= j < i ==> part_key(path@[j]) == part_key(#[trigger] dir@[j]),
        decreases dir@.len() - i,
    {
        if !same_part(&path[i], &dir[i]) {
            proof {
                assert(path_keys(path@).take(dir@.len() as int)[i as int] == part_key(
                    path@[i as int],
                ));
                assert(path_keys(dir@)[i as int] == part_key(dir@[i as int]));
            }
            return false;
        }
        i += 1;
    }
    assert(path_keys(path@).take(dir@.len() as int) =~= path_keys(dir@));
    true
}

/// The names in a path with slashes between them.
pub fn normalized_relative_path(path: &[PathPart]) -> (r: String)
    ensures
        r@ == relative_text(path@),
{
    let mut parts: Vec<Vec<char>> = Vec::new();
    let mut i: usize = 0;
    assert(pieces(parts@) =~= names(path@.take(0)));
    while i < path.len()
        invariant
            i <= path@.len(),
            pieces(parts@) == names(path@.take(i as int)),
        decreases path@.len() - i,
    {
        let ghost before = parts@;
        if path[i].normal {
            parts.push(chars_of(path[i].text.as_str()));
            assert(pieces(parts@) =~= pieces(before).push(path@[i as int].text@));
        }
        i += 1;
        assert(path@.take(i as int).drop_last() =~= path@.take(i - 1));
        assert(path@.take(i as int).last() == path@[i - 1]);
    }
    assert(path@.take(i as int) =~= path@);
    let joined = join_parts(&parts, "/");
    string_of(&joined)
}

/// The position of the innermost plugin directory that a script lies in.
fn find_root(script: &[PathPart], roots: &[PluginRoot]) -> (r: Option<usize>)
    ensures
        match r {
            Some(i) => best_root(script@, roots@) == Some(i as int) && i < roots@.len() && in_root(
                script@,
                roots@[i as int],
            ),
            None => best_root(script@, roots@) is None,
        },
{
    let mut best: Option<usize> = None;
    let mut best_len: usize = 0;
    let mut i: usize = 0;
    assert(roots@.take(0).len() == 0);
    while i < roots.len()
        invariant
            i <= roots@.len(),
            match best {
                Some(b) => best_root(script@, roots@.take(i as int)) == Some(b as int) && b < i
                    && in_root(script@, roots@[b as int]) && best_len
                    == roots@[b as int].directory->0@.len(),
                None => best_root(script@, roots@.take(i as int)) is None,
            },
        decreases roots@.len() - i,
    {
        let ghost upto = roots@.take(i + 1);
        assert(upto.drop_last() =~= roots@.take(i as int));
        assert(upto.last() == roots@[i as int]);
        if let Some(dir) = &roots[i].directory {
            if is_under(script, dir) && (best.is_none() || dir.len() >= best_len) {
                best = Some(i);
                best_len = dir.len();
            }
        }
        i += 1;
    }
    assert(roots@.take(i as int) =~= roots@);
    best
}

/// The skill of the plugin that a script belongs to.
pub fn skill_for_script(skills: &[SkillScripts], plugin_id: &str, script: &[PathPart]) -> (r: Option<
    PluginScriptSkill,
>)
    ensures
        match r {
            Some(s) => first_skill(script@, plugin_id@, skills@) matches Some(i) && 0 <= i
                < skills@.len() && s.skill_name@ == skills@[i].name@ && s.skill_path@
                == skills@[i].skill_path@,
            None => first_skill(script@, plugin_id@, skills@) is None,
        },
{
    let mut i: usize = 0;
    assert(skills@.take(0).len() == 0);
    while i < skills.len()
        invariant
            i <= skills@.len(),
            first_skill(script@, plugin_id@, skills@.take(i as int)) is None,
        decreases skills@.len() - i,
    {
        let skill = &skills[i];
        let ghost upto = skills@.take(i + 1);
        assert(upto.drop_last() =~= skills@.take(i as int));
        assert(upto.last() == skills@[i as int]);
        let of_plugin = match &skill.plugin_id {
            Some(id) => same_text(id.as_str(), plugin_id),
            None => false,
        };
        let holds = match &skill.scripts_directory {
            Some(dir) => is_under(script, dir),
            None => false,
        };
        if of_plugin && skill.enabled && holds {
            proof {
                lemma_first_skill_stays(script@, plugin_id@, skills@, i + 1);
            }
            return Some(
                PluginScriptSkill {
                    skill_name: skill.name.clone(),
                    skill_path: skill.skill_path.clone(),
                },
            );
        }
        i += 1;
    }
    assert(skills@.take(i as int) =~= skills@);
    None
}

proof fn lemma_first_skill_stays(
    script: Seq<PathPart>,
    plugin_id: Seq<char>,
    skills: Seq<SkillScripts>,
    n: int,
)
    requires
        0 <= n <= skills.len(),
        first_skill(script, plugin_id, skills.take(n)) is Some,
    ensures
        first_skill(script, plugin_id, skills) == first_skill(script, plugin_id, skills.take(n)),
    decreases skills.len() - n,
{
    if n == skills.len() {
        assert(skills.take(n) =~= skills);
    } else {
        assert(skills.take(n + 1).drop_last() =~= skills.take(n));
        lemma_first_skill_stays(script, plugin_id, skills, n + 1);
    }
}

/// What a script resolves to: the plugin of the innermost directory that it lies
/// in, unless it is that directory itself.
pub open spec fn resolution(
    script: Seq<PathPart>,
    roots: Seq<PluginRoot>,
    skills: Seq<SkillScripts>,
) -> Option<(Seq<char>, Seq<char>, Option<int>)> {
    match best_root(script, roots) {
        Some(i) => {
            let depth = roots[i].directory->0@.len();
            if depth == script.len() {
                None
            } else {
                Some(
                    (
                        roots[i].plugin_id@,
                        relative_text(script.skip(depth as int)),
                        first_skill(script, roots[i].plugin_id@, skills),
                    ),
                )
            }
        },
        None => None,
    }
}

/// Resolves a script that was found at the given canonical path.
pub fn resolve_plugin_script(
    script: &[PathPart],
    roots: &[PluginRoot],
    skills: &[SkillScripts],
) -> (r: Option<ResolvedPluginScript>)
    ensures
        match r {
            Some(s) => resolution(script@, roots@, skills@) matches Some((plugin, path, skill))
                && s.plugin_id@ == plugin && s.script_path@ == path && match (s.skill, skill) {
                (Some(found), Some(i)) => 0 <= i < skills@.len() && found.skill_name@
                    == skills@[i].name@ && found.skill_path@ == skills@[i].skill_path@,
                (None, None) => true,
                _ => false,
            },
            None => resolution(script@, roots@, skills@) is None,
        },
{
    let i = match find_root(script, roots) {
        Some(i) => i,
        None => {
            return None;
        },
    };
    let root = &roots[i];
    let depth: usize = match &root.directory {
        Some(dir) => dir.len(),
        None => {
            return None;
        },
    };
    if depth == script.len() {
        return None;
    }
    let relative = &script[depth..script.len()];
    assert(relative@ =~= script@.skip(depth as int));
    Some(
        ResolvedPluginScript {
            plugin_id: root.plugin_id.clone(),
            script_path: normalized_relative_path(relative),
            skill: skill_for_script(skills, root.plugin_id.as_str(), script),
        },
    )
}

/// A script is attributed to a plugin only if it lies in that plugin's directory,
/// and no plugin directory that it lies in is further in.
pub proof fn law_script_belongs_to_innermost_root(
    script: Seq<PathPart>,
    roots: Seq<PluginRoot>,
)
    ensures
        match best_root(script, roots) {
            Some(i) => {
                &&& 0 <= i < roots.len()
                &&& in_root(script, roots[i])
                &&& forall|j: int|
                    0 <= j < roots.len() && in_root(script, #[trigger] roots[j])
                        ==> roots[j].directory->0@.len() <= roots[i].directory->0@.len()
            },
            None => forall|j: int| 0 <= j < roots.len() ==> !in_root(script, #[trigger] roots[j]),
        },
    decreases roots.len(),
{
    if roots.len() > 0 {
        let earlier = roots.drop_last();
        law_script_belongs_to_innermost_root(script, earlier);
        assert forall|j: int| 0 <= j < roots.len() - 1 implies #[trigger] roots[j] == earlier[j] by {}
    }
}

/// A path lies under a directory exactly where it begins with all the components of
/// the directory, byte for byte.
pub proof fn law_path_under_a_directory_begins_with_it(path: Seq<PathPart>, dir: Seq<PathPart>)
    ensures
        lies_under(path, dir) <==> dir.len() <= path.len() && forall|i: int|
            0 <= i < dir.len() ==> (#[trigger] dir[i]).raw@ == path[i].raw@ && dir[i].normal
                == path[i].normal,
{
    let a = path_keys(path).take(dir.len() as int);
    let b = path_keys(dir);
    if dir.len() <= path.len() {
        assert(forall|i: int| 0 <= i < dir.len() ==> a[i] == part_key(#[trigger] path[i]));
        assert(forall|i: int| 0 <= i < dir.len() ==> b[i] == part_key(#[trigger] dir[i]));
        if lies_under(path, dir) {
            assert forall|i: int| 0 <= i < dir.len() implies (#[trigger] dir[i]).raw@
                == path[i].raw@ && dir[i].normal == path[i].normal by {
                assert(a[i] == b[i]);
                assert(part_key(path[i]) == part_key(dir[i]));
            }
        }
        if forall|i: int|
            0 <= i < dir.len() ==> (#[trigger] dir[i]).raw@ == path[i].raw@ && dir[i].normal
                == path[i].normal {
            assert forall|i: int| 0 <= i < dir.len() implies a[i] == b[i] by {
                assert(dir[i].raw@ == path[i].raw@);
            }
            assert(a =~= b);
        }
    }
}

/// Of plugins with the same directory the last one counts, and a directory that
/// could not be found, or that the script does not lie in, does not matter.
pub proof fn law_later_plugin_of_the_same_directory_counts(
    script: Seq<PathPart>,
    roots: Seq<PluginRoot>,
    root: PluginRoot,
)
    ensures
        root.directory is None ==> best_root(script, roots.push(root)) == best_root(script, roots),
        root.directory is Some && !lies_under(script, (root.directory->0)@) ==> best_root(
            script,
            roots.push(root),
        ) == best_root(script, roots),
        root.directory matches Some(dir) && lies_under(script, dir@) && (best_root(script, roots)
            matches Some(i) ==> roots[i].directory->0@.len() <= dir@.len()) ==> best_root(
            script,
            roots.push(root),
        ) == Some(roots.len() as int),
{
    assert(roots.push(root).drop_last() =~= roots);
    law_script_belongs_to_innermost_root(script, roots);
}

/// A script belongs to the first skill in the list that is one of its plugin, is
/// enabled, and has a scripts directory that the script lies in; without such a
/// skill it belongs to none.
pub proof fn law_script_belongs_to_the_first_enabled_skill(
    script: Seq<PathPart>,
    plugin_id: Seq<char>,
    skills: Seq<SkillScripts>,
)
    ensures
        match first_skill(script, plugin_id, skills) {
            Some(i) => {
                &&& 0 <= i < skills.len()
                &&& serves(script, plugin_id, skills[i])
                &&& forall|j: int|
                    0 <= j < i ==> !serves(script, plugin_id, #[trigger] skills[j])
            },
            None => forall|j: int|
                0 <= j < skills.len() ==> !serves(script, plugin_id, #[trigger] skills[j]),
        },
    decreases skills.len(),
{
    if skills.len() > 0 {
        let earlier = skills.drop_last();
        law_script_belongs_to_the_first_enabled_skill(script, plugin_id, earlier);
        assert forall|j: int| 0 <= j < skills.len() - 1 implies #[trigger] skills[j]
            == earlier[j] by {}
    }
}

/// Whether the skill is one of the plugin, is enabled, and has a scripts directory
/// that the script lies in.
pub open spec fn serves(script: Seq<PathPart>, plugin_id: Seq<char>, skill: SkillScripts) -> bool {
    &&& skill.enabled
    &&& skill.plugin_id is Some
    &&& (skill.plugin_id->0)@ == plugin_id
    &&& skill.scripts_directory is Some
    &&& lies_under(script, (skill.scripts_directory->0)@)
}

/// A script is resolved exactly where it lies in the directory of a plugin and is
/// not itself the innermost such directory. It is then that plugin's, under its
/// path below that directory.
pub proof fn law_resolution_is_by_the_innermost_plugin(
    script: Seq<PathPart>,
    roots: Seq<PluginRoot>,
    skills: Seq<SkillScripts>,
)
    ensures
        match best_root(script, roots) {
            None => resolution(script, roots, skills) is None,
            Some(i) => {
                let dir = roots[i].directory->0@;
                &&& dir.len() == script.len() ==> resolution(script, roots, skills) is None
                &&& dir.len() < script.len() ==> resolution(script, roots, skills) is Some
                &&& resolution(script, roots, skills) matches Some((plugin, path, skill)) ==> {
                    &&& plugin == roots[i].plugin_id@
                    &&& path == relative_text(script.skip(dir.len() as int))
                    &&& skill == first_skill(script, plugin, skills)
                }
            },
        },
{
}

/// The names in a path are those of its named components, in order; the others do
/// not show.
pub proof fn law_names_are_those_of_named_components(
    a: Seq<PathPart>,
    b: Seq<PathPart>,
    part: PathPart,
)
    ensures
        names(Seq::empty()) == Seq::<Seq<char>>::empty(),
        names(a + b) == names(a) + names(b),
        part.normal ==> names(seq![part]) == seq![part.text@],
        !part.normal ==> names(seq![part]) == Seq::<Seq<char>>::empty(),
        part.normal ==> relative_text(seq![part]) == part.text@,
        names(a).len() > 0 && part.normal ==> relative_text(a.push(part)) == relative_text(a) + "/"@
            + part.text@,
    decreases b.len(),
{
    reveal_with_fuel(names, 2);
    assert(seq![part].drop_last() =~= Seq::empty());
    assert(names(seq![part]) =~= if part.normal {
        seq![part.text@]
    } else {
        Seq::empty()
    });
    assert(a.push(part).drop_last() =~= a);
    assert(names(a).push(part.text@).drop_last() =~= names(a));
    if b.len() == 0 {
        assert(a + b =~= a);
        assert(names(a) + names(b) =~= names(a));
    } else {
        law_names_are_those_of_named_components(a, b.drop_last(), part);
        assert((a + b).drop_last() =~= a + b.drop_last());
        assert(names(a + b) =~= names(a) + names(b));
    }
}

} // verus!
