//! The skills that the user has switched on or off.

use crate::skill::{Skill, SkillSource};
use crate::text::owned;
use vstd::prelude::*;

verus! {

/// Whether a skill of a name and a source is on, by the wish of the user.
#[derive(Debug)]
pub struct SkillOverride {
    pub name: String,
    pub source: SkillSource,
    pub enabled: bool,
}

/// Whether a record is that of a skill.
pub open spec fn is_of(o: SkillOverride, name: Seq<char>, source: SkillSource) -> bool {
    o.name@ == name && o.source == source
}

/// What is recorded of a skill: the last record of its name and source.
pub open spec fn recorded(
    overrides: Seq<SkillOverride>,
    name: Seq<char>,
    source: SkillSource,
) -> Option<bool>
    decreases overrides.len(),
{
    if overrides.len() == 0 {
        None
    } else if is_of(overrides.last(), name, source) {
        Some(overrides.last().enabled)
    } else {
        recorded(overrides.drop_last(), name, source)
    }
}

/// A skill as the user has switched it: only whether it is offered differs, and that only
/// where something is recorded of it.
pub open spec fn switched(skill: Skill, overrides: Seq<SkillOverride>) -> Skill {
    match recorded(overrides, skill.name@, skill.source) {
        Some(enabled) => Skill { disable_model_invocation: !enabled, ..skill },
        None => skill,
    }
}

/// Skills as the user has switched them, in their order.
pub open spec fn all_switched(skills: Seq<Skill>, overrides: Seq<SkillOverride>) -> Seq<Skill> {
    Seq::new(skills.len(), |i: int| switched(skills[i], overrides))
}

fn find_recorded(overrides: &Vec<SkillOverride>, name: &str, source: SkillSource) -> (r: Option<
    bool,
>)
    ensures
        r == recorded(overrides@, name@, source),
{
    let mut i: usize = overrides.len();
    assert(overrides@.take(i as int) =~= overrides@);
    while i > 0
        invariant
            i <= overrides@.len(),
            recorded(overrides@, name@, source) == recorded(
                overrides@.take(i as int),
                name@,
                source,
            ),
        decreases i,
    {
        i -= 1;
        let ghost head = overrides@.take(i + 1);
        assert(head.last() == overrides@[i as int]);
        assert(head.drop_last() =~= overrides@.take(i as int));
        let o = &overrides[i];
        if o.name.as_str().eq(name) && o.source == source {
            return Some(o.enabled);
        }
    }
    None
}

/// The skills as the user has switched them.
pub fn switched_skills(skills: Vec<Skill>, overrides: &Vec<SkillOverride>) -> (r: Vec<Skill>)
    ensures
        r@ == all_switched(skills@, overrides@),
{
    let mut r: Vec<Skill> = Vec::new();
    let mut i: usize = 0;
    assert(all_switched(skills@, overrides@).take(0) =~= Seq::empty());
    while i < skills.len()
        invariant
            i <= skills@.len(),
            r@ == all_switched(skills@, overrides@).take(i as int),
        decreases skills@.len() - i,
    {
        let mut skill = skills[i].copy();
        if let Some(enabled) = find_recorded(overrides, skill.name.as_str(), skill.source) {
            skill.disable_model_invocation = !enabled;
        }
        r.push(skill);
        i += 1;
        assert(r@ =~= all_switched(skills@, overrides@).take(i as int));
    }
    assert(all_switched(skills@, overrides@).take(i as int) =~= all_switched(
        skills@,
        overrides@,
    ));
    r
}

/// The records of other skills than one.
pub open spec fn others_kept(
    overrides: Seq<SkillOverride>,
    name: Seq<char>,
    source: SkillSource,
) -> Seq<SkillOverride>
    decreases overrides.len(),
{
    if overrides.len() == 0 {
        Seq::empty()
    } else if is_of(overrides.last(), name, source) {
        others_kept(overrides.drop_last(), name, source)
    } else {
        others_kept(overrides.drop_last(), name, source).push(overrides.last())
    }
}

/// Whether `after` is what is recorded once a skill is switched.
pub open spec fn is_set(
    before: Seq<SkillOverride>,
    name: Seq<char>,
    source: SkillSource,
    enabled: bool,
    after: Seq<SkillOverride>,
) -> bool {
    &&& after.len() > 0
    &&& after.drop_last() == others_kept(before, name, source)
    &&& is_of(after.last(), name, source)
    &&& after.last().enabled == enabled
}

/// Records that a skill is on or off, in place of what was recorded of it.
pub fn set_override(
    overrides: Vec<SkillOverride>,
    name: &str,
    source: SkillSource,
    enabled: bool,
) -> (r: Vec<SkillOverride>)
    ensures
        is_set(overrides@, name@, source, enabled, r@),
{
    let mut r: Vec<SkillOverride> = Vec::new();
    let mut i: usize = 0;
    assert(overrides@.take(0) =~= Seq::empty());
    while i < overrides.len()
        invariant
            i <= overrides@.len(),
            r@ == others_kept(overrides@.take(i as int), name@, source),
        decreases overrides@.len() - i,
    {
        let o = &overrides[i];
        if !(o.name.as_str().eq(name) && o.source == source) {
            r.push(SkillOverride { name: o.name.clone(), source: o.source, enabled: o.enabled });
        }
        i += 1;
        assert(overrides@.take(i as int).drop_last() =~= overrides@.take(i - 1));
    }
    assert(overrides@.take(i as int) =~= overrides@);
    let ghost kept = r@;
    r.push(SkillOverride { name: owned(name), source, enabled });
    assert(r@.drop_last() =~= kept);
    r
}

// Laws.

proof fn lemma_others_kept(
    overrides: Seq<SkillOverride>,
    name: Seq<char>,
    source: SkillSource,
    other: Seq<char>,
    from: SkillSource,
)
    requires
        other != name || from != source,
    ensures
        recorded(others_kept(overrides, name, source), other, from) == recorded(
            overrides,
            other,
            from,
        ),
    decreases overrides.len(),
{
    if overrides.len() > 0 {
        let front = overrides.drop_last();
        lemma_others_kept(front, name, source, other, from);
        let kept = others_kept(front, name, source);
        assert(kept.push(overrides.last()).drop_last() =~= kept);
    }
}

/// A switch takes effect: once it is recorded, the skill of the name and the source is offered
/// exactly where it was switched on, and every other skill is as it was.
pub proof fn law_switches_take_effect(
    before: Seq<SkillOverride>,
    name: Seq<char>,
    source: SkillSource,
    enabled: bool,
    after: Seq<SkillOverride>,
    skill: Skill,
)
    requires
        is_set(before, name, source, enabled, after),
    ensures
        skill.name@ == name && skill.source == source ==> switched(skill, after)
            == (Skill { disable_model_invocation: !enabled, ..skill }),
        !(skill.name@ == name && skill.source == source) ==> switched(skill, after) == switched(
            skill,
            before,
        ),
{
    if !(skill.name@ == name && skill.source == source) {
        lemma_others_kept(before, name, source, skill.name@, skill.source);
    }
}

/// Where nothing is recorded, the skills are as they are.
pub proof fn law_no_switches_change_nothing(skills: Seq<Skill>)
    ensures
        all_switched(skills, Seq::empty()) == skills,
{
    assert(all_switched(skills, Seq::empty()) =~= skills);
}

} // verus!
