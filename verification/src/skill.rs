//! Skills as the daemon's catalog holds them.

use vstd::prelude::*;

verus! {

/// Where a skill was loaded from.
#[derive(Clone, Copy, Debug, PartialEq, Eq, Structural)]
pub enum SkillSource {
    Builtin,
    User,
    Project,
}

/// One skill of the catalog.
#[derive(Debug)]
pub struct Skill {
    pub name: String,
    pub description: String,
    pub file_path: String,
    pub content: String,
    /// A disabled skill stays in the catalog but is not offered.
    pub disable_model_invocation: bool,
    pub source: SkillSource,
}

/// The name of a skill source in commands and listings.
pub open spec fn source_label(source: SkillSource) -> Seq<char> {
    match source {
        SkillSource::Builtin => "builtin"@,
        SkillSource::User => "user"@,
        SkillSource::Project => "project"@,
    }
}

impl SkillSource {
    /// The name of the source in commands and listings.
    pub fn label(self) -> (r: &'static str)
        ensures
            r@ == source_label(self),
    {
        match self {
            SkillSource::Builtin => "builtin",
            SkillSource::User => "user",
            SkillSource::Project => "project",
        }
    }
}

impl Skill {
    /// A copy of the skill.
    pub fn copy(&self) -> (r: Skill)
        ensures
            r == *self,
    {
        Skill {
            name: self.name.clone(),
            description: self.description.clone(),
            file_path: self.file_path.clone(),
            content: self.content.clone(),
            disable_model_invocation: self.disable_model_invocation,
            source: self.source,
        }
    }
}

/// A copy of a list of skills.
pub fn copy_skills(v: &Vec<Skill>) -> (r: Vec<Skill>)
    ensures
        r@ == v@,
{
    let mut r: Vec<Skill> = Vec::new();
    let mut i: usize = 0;
    while i < v.len()
        invariant
            i <= v@.len(),
            r@ == v@.take(i as int),
        decreases v@.len() - i,
    {
        r.push(v[i].copy());
        i += 1;
        assert(v@.take(i as int) =~= v@.take(i - 1).push(v@[i - 1]));
    }
    assert(v@.take(i as int) =~= v@);
    r
}

/// The position of the first skill of a name, or the length of the list.
pub open spec fn skill_pos(skills: Seq<Skill>, name: Seq<char>, from: int) -> int
    decreases skills.len() - from,
{
    if from < 0 || from >= skills.len() || skills[from].name@ == name {
        from
    } else {
        skill_pos(skills, name, from + 1)
    }
}

pub proof fn lemma_skill_pos(skills: Seq<Skill>, name: Seq<char>, from: int)
    requires
        0 <= from <= skills.len(),
    ensures
        from <= skill_pos(skills, name, from) <= skills.len(),
        skill_pos(skills, name, from) < skills.len() ==> skills[skill_pos(
            skills,
            name,
            from,
        )].name@ == name,
        forall|j: int|
            from <= j < skill_pos(skills, name, from) ==> (#[trigger] skills[j]).name@ != name,
    decreases skills.len() - from,
{
    if from < skills.len() && skills[from].name@ != name {
        lemma_skill_pos(skills, name, from + 1);
    }
}

/// The position of the first skill of a name, or the length of the list.
pub fn find_skill(skills: &Vec<Skill>, name: &str) -> (r: usize)
    ensures
        r == skill_pos(skills@, name@, 0),
        r <= skills@.len(),
{
    let mut i: usize = 0;
    while i < skills.len() && !skills[i].name.as_str().eq(name)
        invariant
            i <= skills@.len(),
            skill_pos(skills@, name@, 0) == skill_pos(skills@, name@, i as int),
        decreases skills@.len() - i,
    {
        i += 1;
    }
    i
}

} // verus!
