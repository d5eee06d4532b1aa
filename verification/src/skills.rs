//! Skills as the prompt sees them: a catalog of named skills, the set of enabled
//! ones, and the rule that typing `/name …` for a user-invocable skill enables it.

use vstd::prelude::*;
use crate::text::{
    char_is_white_space, chars_equal, chars_of, copy_range, is_white_space, string_from_chars,
    string_views,
};

verus! {

/// One skill of the catalog.
pub struct Skill {
    pub name: String,
    pub description: String,
    pub user_invocable: bool,
}

pub struct SkillView {
    pub name: Seq<char>,
    pub description: Seq<char>,
    pub user_invocable: bool,
}

impl View for Skill {
    type V = SkillView;

    open spec fn view(&self) -> SkillView {
        SkillView {
            name: self.name@,
            description: self.description@,
            user_invocable: self.user_invocable,
        }
    }
}

pub open spec fn skill_views(v: Seq<Skill>) -> Seq<SkillView> {
    v.map_values(|s: Skill| s@)
}

/// The skills found, in catalog order.
pub struct SkillCatalog {
    skills: Vec<Skill>,
}

impl View for SkillCatalog {
    type V = Seq<SkillView>;

    closed spec fn view(&self) -> Seq<SkillView> {
        skill_views(self.skills@)
    }
}

/// Index of the first skill called `name`, or the catalog's length.
pub open spec fn first_named(s: Seq<SkillView>, name: Seq<char>) -> int
    decreases s.len(),
{
    if s.len() == 0 {
        0
    } else if s[0].name == name {
        0
    } else {
        1 + first_named(s.drop_first(), name)
    }
}

proof fn lemma_first_named_bound(s: Seq<SkillView>, name: Seq<char>)
    ensures
        0 <= first_named(s, name) <= s.len(),
        first_named(s, name) < s.len() ==> s[first_named(s, name)].name == name,
    decreases s.len(),
{
    if s.len() > 0 && s[0].name != name {
        lemma_first_named_bound(s.drop_first(), name);
    }
}

impl SkillCatalog {
    /// A catalog of `skills`, in that order.
    pub fn from_skills(skills: Vec<Skill>) -> (c: Self)
        ensures
            c@ == skill_views(skills@),
    {
        SkillCatalog { skills }
    }

    pub fn skills(&self) -> (r: &Vec<Skill>)
        ensures
            skill_views(r@) == self@,
    {
        &self.skills
    }

    /// The first skill called `name`.
    pub fn find(&self, name: &str) -> (r: Option<&Skill>)
        ensures
            r is Some <==> first_named(self@, name@) < self@.len(),
            r matches Some(s) ==> s@ == self@[first_named(self@, name@)],
    {
        let wanted = chars_of(name);
        let mut i: usize = 0;
        let ghost all = self@;
        assert(all.skip(0) == all);
        while i < self.skills.len()
            invariant
                i <= self.skills@.len(),
                all == skill_views(self.skills@),
                wanted@ == name@,
                i + first_named(all.skip(i as int), name@) == first_named(all, name@),
            decreases self.skills@.len() - i,
        {
            let candidate = chars_of(self.skills[i].name.as_str());
            assert(all.skip(i as int)[0] == all[i as int]);
            if chars_equal(candidate.as_slice(), wanted.as_slice()) {
                return Some(&self.skills[i]);
            }
            assert(all.skip(i as int).drop_first() == all.skip(i + 1));
            i += 1;
        }
        proof {
            assert(all.skip(i as int).len() == 0);
        }
        None
    }
}

/// The names of the enabled skills.
pub struct SkillSelection {
    names: Vec<String>,
}

impl View for SkillSelection {
    type V = Set<Seq<char>>;

    closed spec fn view(&self) -> Set<Seq<char>> {
        Set::new(|k: Seq<char>| exists|i: int| 0 <= i < self.names@.len() && #[trigger] self.names@[i]@ == k)
    }
}

/// The names among the first `i` entries.
spec fn names_before(names: Seq<String>, i: int) -> Set<Seq<char>> {
    Set::new(|k: Seq<char>| exists|a: int| 0 <= a < i && #[trigger] names[a]@ == k)
}

/// Whether the catalog holds a skill called `name`.
pub open spec fn catalog_has(c: Seq<SkillView>, name: Seq<char>) -> bool {
    first_named(c, name) < c.len()
}

/// Toggling a name removes it when enabled and, when not, enables it if the catalog
/// knows it.
pub open spec fn spec_toggle(sel: Set<Seq<char>>, c: Seq<SkillView>, name: Seq<char>) -> Set<Seq<char>> {
    if sel.contains(name) {
        sel.remove(name)
    } else if catalog_has(c, name) {
        sel.insert(name)
    } else {
        sel
    }
}

impl SkillSelection {
    /// Nothing enabled.
    pub fn none() -> (s: Self)
        ensures
            s@ == Set::<Seq<char>>::empty(),
    {
        let s = SkillSelection { names: Vec::new() };
        assert(s@ =~= Set::<Seq<char>>::empty());
        s
    }

    fn position(&self, name: &String) -> (r: Option<usize>)
        ensures
            r matches Some(i) ==> i < self.names@.len() && self.names@[i as int]@ == name@,
            r is None ==> !self@.contains(name@),
    {
        let mut i: usize = 0;
        while i < self.names.len()
            invariant
                i <= self.names@.len(),
                forall|j: int| 0 <= j < i ==> (#[trigger] self.names@[j])@ != name@,
            decreases self.names@.len() - i,
        {
            if self.names[i] == *name {
                return Some(i);
            }
            i += 1;
        }
        None
    }

    pub fn contains(&self, name: &str) -> (b: bool)
        ensures
            b == self@.contains(name@),
    {
        let key = name.to_owned();
        self.position(&key).is_some()
    }

    /// A copy of this selection.
    pub fn copied(&self) -> (r: Self)
        ensures
            r@ == self@,
    {
        let mut names: Vec<String> = Vec::new();
        let mut i: usize = 0;
        while i < self.names.len()
            invariant
                i <= self.names@.len(),
                names@.len() == i,
                forall|j: int| 0 <= j < i ==> (#[trigger] names@[j])@ == self.names@[j]@,
            decreases self.names@.len() - i,
        {
            names.push(self.names[i].clone());
            i += 1;
        }
        let r = SkillSelection { names };
        assert(r@ =~= self@) by {
            assert forall|k: Seq<char>| r@.contains(k) implies self@.contains(k) by {
                let j = choose|j: int| 0 <= j < r.names@.len() && #[trigger] r.names@[j]@ == k;
                assert(self.names@[j]@ == k);
            }
            assert forall|k: Seq<char>| self@.contains(k) implies r@.contains(k) by {
                let j = choose|j: int| 0 <= j < self.names@.len() && #[trigger] self.names@[j]@ == k;
                assert(r.names@[j]@ == k);
            }
        }
        r
    }

    /// Enables `name` when it is off and the catalog knows it; disables it when on.
    pub fn toggle(&mut self, catalog: &SkillCatalog, name: &str)
        ensures
            final(self)@ == spec_toggle(old(self)@, catalog@, name@),
    {
        let key = name.to_owned();
        let ghost before = self@;
        match self.position(&key) {
            Some(i) => {
                let ghost old_names = self.names@;
                let mut kept: Vec<String> = Vec::new();
                let mut j: usize = 0;
                while j < self.names.len()
                    invariant
                        j <= self.names@.len(),
                        self.names@ == old_names,
                        key@ == name@,
                        forall|a: int| 0 <= a < kept@.len() ==> (#[trigger] kept@[a])@ != name@,
                        forall|a: int| 0 <= a < kept@.len() ==> exists|b: int| 0 <= b < j && (#[trigger] kept@[a])@ == old_names[b]@,
                        forall|b: int| 0 <= b < j && (#[trigger] old_names[b])@ != name@ ==> exists|a: int| 0 <= a < kept@.len() && kept@[a]@ == old_names[b]@,
                    decreases self.names@.len() - j,
                {
                    let is_name = self.names[j] == key;
                    let ghost old_kept = kept@;
                    if !is_name {
                        let copy = self.names[j].clone();
                        kept.push(copy);
                        assert(kept@[kept@.len() - 1]@ == old_names[j as int]@);
                    }
                    proof {
                        assert forall|b: int| 0 <= b < j + 1 && (#[trigger] old_names[b])@ != name@ implies exists|a: int| 0 <= a < kept@.len() && kept@[a]@ == old_names[b]@ by {
                            if b < j {
                                let a = choose|a: int| 0 <= a < old_kept.len() && old_kept[a]@ == old_names[b]@;
                                assert(kept@[a] == old_kept[a]);
                            } else {
                                assert(kept@[kept@.len() - 1]@ == old_names[b]@);
                            }
                        }
                        assert forall|a: int| 0 <= a < kept@.len() implies exists|b: int| 0 <= b < j + 1 && (#[trigger] kept@[a])@ == old_names[b]@ by {
                            if a < old_kept.len() {
                                assert(kept@[a] == old_kept[a]);
                                let b = choose|b: int| 0 <= b < j && old_kept[a]@ == old_names[b]@;
                                assert(old_names[b]@ == kept@[a]@);
                            } else {
                                assert(kept@[a]@ == old_names[j as int]@);
                            }
                        }
                    }
                    j += 1;
                }
                self.names = kept;
                proof {
                    assert(self@ =~= before.remove(name@)) by {
                        assert forall|k: Seq<char>| self@.contains(k) implies before.remove(name@).contains(k) by {
                            let a = choose|a: int| 0 <= a < self.names@.len() && #[trigger] self.names@[a]@ == k;
                            let b = choose|b: int| 0 <= b < old_names.len() && #[trigger] self.names@[a]@ == old_names[b]@;
                            assert(old_names[b]@ == k);
                        }
                        assert forall|k: Seq<char>| before.remove(name@).contains(k) implies self@.contains(k) by {
                            let b = choose|b: int| 0 <= b < old_names.len() && #[trigger] old_names[b]@ == k;
                            assert(old_names[b]@ != name@);
                        }
                    }
                    assert(before.contains(name@));
                }
            },
            None => {
                if catalog.find(name).is_some() {
                    let ghost old_names = self.names@;
                    self.names.push(key);
                    proof {
                        assert(self@ =~= before.insert(name@)) by {
                            assert(self.names@[self.names@.len() - 1]@ == name@);
                            assert forall|k: Seq<char>| self@.contains(k) implies before.insert(name@).contains(k) by {
                                let a = choose|a: int| 0 <= a < self.names@.len() && #[trigger] self.names@[a]@ == k;
                                if a < self.names@.len() - 1 {
                                    assert(before.contains(k));
                                }
                            }
                            assert forall|k: Seq<char>| before.insert(name@).contains(k) implies self@.contains(k) by {
                                if k != name@ {
                                    let a = choose|a: int| 0 <= a < old_names.len() && #[trigger] old_names[a]@ == k;
                                    assert(self.names@[a] == old_names[a]);
                                    assert(self.names@[a]@ == k);
                                }
                            }
                        }
                    }
                }
            },
        }
    }
}


proof fn lemma_first_named_at_most(s: Seq<SkillView>, name: Seq<char>, j: int)
    requires
        0 <= j < s.len(),
        s[j].name == name,
    ensures
        first_named(s, name) <= j,
    decreases s.len(),
{
    if s[0].name != name {
        assert(s.drop_first()[j - 1] == s[j]);
        lemma_first_named_at_most(s.drop_first(), name, j - 1);
    }
}

impl SkillSelection {
    /// Whether nothing is enabled.
    pub fn is_empty(&self) -> (b: bool)
        ensures
            b == (self@ == Set::<Seq<char>>::empty()),
    {
        if self.names.len() == 0 {
            assert(self@ =~= Set::<Seq<char>>::empty());
            true
        } else {
            assert(self@.contains(self.names@[0]@));
            false
        }
    }

    /// The named skills that the catalog knows, enabled; other names are dropped.
    pub fn from_names(catalog: &SkillCatalog, names: &Vec<String>) -> (s: Self)
        ensures
            s@ == Set::new(|k: Seq<char>| catalog_has(catalog@, k) && string_views(names@).contains(k)),
    {
        let mut s = SkillSelection::none();
        let mut i: usize = 0;
        while i < names.len()
            invariant
                i <= names@.len(),
                s@ == Set::new(|k: Seq<char>| catalog_has(catalog@, k) && names_before(names@, i as int).contains(k)),
            decreases names@.len() - i,
        {
            let name = names[i].as_str();
            let ghost before = s@;
            if !s.contains(name) && catalog.find(name).is_some() {
                s.toggle(catalog, name);
            }
            proof {
                assert(names_before(names@, i + 1) =~= names_before(names@, i as int).insert(names@[i as int]@));
                assert(s@ =~= Set::new(|k: Seq<char>| catalog_has(catalog@, k) && names_before(names@, i + 1).contains(k)));
            }
            i += 1;
        }
        proof {
            assert forall|k: Seq<char>| names_before(names@, i as int).contains(k) <==> string_views(
                names@,
            ).contains(k) by {
                if names_before(names@, i as int).contains(k) {
                    let a = choose|a: int| 0 <= a < i && #[trigger] names@[a]@ == k;
                    assert(string_views(names@)[a] == k);
                }
                if string_views(names@).contains(k) {
                    let a = choose|a: int| 0 <= a < string_views(names@).len() && string_views(names@)[a] == k;
                    assert(names@[a]@ == k);
                }
            }
            assert(s@ =~= Set::new(|k: Seq<char>| catalog_has(catalog@, k) && string_views(names@).contains(k)));
        }
        s
    }

    /// How many skills are enabled.
    pub fn len(&self) -> (n: usize)
        ensures
            n == self@.len(),
            self@.finite(),
    {
        let mut count: usize = 0;
        let mut i: usize = 0;
        proof {
            assert(names_before(self.names@, 0) =~= Set::<Seq<char>>::empty());
        }
        while i < self.names.len()
            invariant
                i <= self.names@.len(),
                names_before(self.names@, i as int).finite(),
                count == names_before(self.names@, i as int).len(),
                count <= i,
            decreases self.names@.len() - i,
        {
            let mut seen = false;
            let mut j: usize = 0;
            while j < i
                invariant
                    j <= i < self.names@.len(),
                    seen <==> exists|a: int| 0 <= a < j && self.names@[a]@ == self.names@[i as int]@,
                decreases i - j,
            {
                if self.names[j] == self.names[i] {
                    seen = true;
                }
                j += 1;
            }
            let ghost before = names_before(self.names@, i as int);
            proof {
                assert(names_before(self.names@, i + 1) =~= before.insert(self.names@[i as int]@));
                assert(seen <==> before.contains(self.names@[i as int]@));
            }
            if !seen {
                count += 1;
            }
            i += 1;
        }
        proof {
            assert(names_before(self.names@, i as int) =~= self@);
        }
        count
    }

    /// The enabled skills that `catalog` knows.
    pub fn restricted_to(&self, catalog: &SkillCatalog) -> (r: Self)
        ensures
            r@ == Set::new(|k: Seq<char>| catalog_has(catalog@, k) && self@.contains(k)),
    {
        let r = SkillSelection::from_names(catalog, &self.names);
        assert(r@ =~= Set::new(|k: Seq<char>| catalog_has(catalog@, k) && self@.contains(k))) by {
            assert forall|k: Seq<char>| string_views(self.names@).contains(k) <==> self@.contains(k) by {
                if string_views(self.names@).contains(k) {
                    let a = choose|a: int| 0 <= a < string_views(self.names@).len() && string_views(self.names@)[a] == k;
                    assert(self.names@[a]@ == k);
                }
                if self@.contains(k) {
                    let a = choose|a: int| 0 <= a < self.names@.len() && #[trigger] self.names@[a]@ == k;
                    assert(string_views(self.names@)[a] == k);
                }
            }
        }
        r
    }

    /// Disables every skill.
    pub fn clear(&mut self)
        ensures
            final(self)@ == Set::<Seq<char>>::empty(),
    {
        self.names = Vec::new();
        assert(self@ =~= Set::<Seq<char>>::empty());
    }

    /// Enables every skill of the catalog.
    pub fn select_all(&mut self, catalog: &SkillCatalog)
        ensures
            final(self)@ == Set::new(|k: Seq<char>| catalog_has(catalog@, k)),
    {
        let skills = catalog.skills();
        let mut names: Vec<String> = Vec::new();
        let mut i: usize = 0;
        while i < skills.len()
            invariant
                i <= skills@.len(),
                skill_views(skills@) == catalog@,
                names@.len() == i,
                forall|j: int| 0 <= j < i ==> (#[trigger] names@[j])@ == skills@[j].name@,
            decreases skills@.len() - i,
        {
            names.push(skills[i].name.clone());
            i += 1;
        }
        self.names = names;
        proof {
            let wanted = Set::new(|k: Seq<char>| catalog_has(catalog@, k));
            assert forall|k: Seq<char>| self@.contains(k) implies wanted.contains(k) by {
                let j = choose|j: int| 0 <= j < self.names@.len() && #[trigger] self.names@[j]@ == k;
                assert(catalog@[j].name == k);
                lemma_first_named_at_most(catalog@, k, j);
            }
            assert forall|k: Seq<char>| wanted.contains(k) implies self@.contains(k) by {
                lemma_first_named_bound(catalog@, k);
                let j = first_named(catalog@, k);
                assert(self.names@[j]@ == k);
            }
            assert(self@ =~= wanted);
        }
    }
}

/// Length of the leading run of non-whitespace characters.
pub open spec fn first_white_space(s: Seq<char>) -> int
    decreases s.len(),
{
    if s.len() == 0 {
        0
    } else if is_white_space(s[0]) {
        0
    } else {
        1 + first_white_space(s.drop_first())
    }
}

proof fn lemma_first_white_space_bound(s: Seq<char>)
    ensures
        0 <= first_white_space(s) <= s.len(),
    decreases s.len(),
{
    if s.len() > 0 {
        lemma_first_white_space_bound(s.drop_first());
    }
}

/// The skill name a prompt invokes: its first word with the leading `/` removed.
pub open spec fn invoked_name(prompt: Seq<char>) -> Option<Seq<char>> {
    let token = prompt.take(first_white_space(prompt));
    if token.len() > 1 && token[0] == '/' {
        Some(token.drop_first())
    } else {
        None
    }
}

/// The catalog entry a prompt invokes: a user-invocable skill named by `/name`.
pub open spec fn spec_invoked_skill(c: Seq<SkillView>, prompt: Seq<char>) -> Option<SkillView> {
    match invoked_name(prompt) {
        Some(name) => if catalog_has(c, name) && c[first_named(c, name)].user_invocable {
            Some(c[first_named(c, name)])
        } else {
            None
        },
        None => None,
    }
}

fn invoked_name_exec(prompt: &str) -> (r: Option<String>)
    ensures
        r is Some <==> invoked_name(prompt@) is Some,
        r matches Some(n) ==> invoked_name(prompt@) == Some(n@),
{
    let cs = chars_of(prompt);
    let mut end: usize = 0;
    assert(cs@.skip(0) == cs@);
    while end < cs.len() && !char_is_white_space(cs[end])
        invariant
            end <= cs@.len(),
            end + first_white_space(cs@.skip(end as int)) == first_white_space(cs@),
        decreases cs@.len() - end,
    {
        assert(cs@.skip(end as int).drop_first() == cs@.skip(end + 1));
        end += 1;
    }
    if end > 1 && cs[0] == '/' {
        let name = copy_range(cs.as_slice(), 1, end);
        assert(name@ == cs@.take(end as int).drop_first());
        Some(string_from_chars(name.as_slice()))
    } else {
        None
    }
}

/// The user-invocable skill a `/name …` prompt invokes, if any.
pub fn invoked_skill<'a>(catalog: &'a SkillCatalog, prompt: &str) -> (r: Option<&'a Skill>)
    ensures
        r is Some <==> spec_invoked_skill(catalog@, prompt@) is Some,
        r matches Some(s) ==> spec_invoked_skill(catalog@, prompt@) == Some(s@),
{
    let name = match invoked_name_exec(prompt) {
        Some(n) => n,
        None => {
            return None;
        },
    };
    match catalog.find(name.as_str()) {
        Some(skill) => {
            if skill.user_invocable {
                Some(skill)
            } else {
                None
            }
        },
        None => None,
    }
}

/// The selection to apply before sending a `/name …` prompt: the active one with the
/// invoked skill enabled, or nothing when no skill is invoked or it is already on.
pub open spec fn spec_selection_for_invocation(
    c: Seq<SkillView>,
    active: Set<Seq<char>>,
    prompt: Seq<char>,
) -> Option<Set<Seq<char>>> {
    match spec_invoked_skill(c, prompt) {
        Some(skill) => if active.contains(skill.name) {
            None
        } else {
            Some(spec_toggle(active, c, skill.name))
        },
        None => None,
    }
}

/// The selection that enables the skill a `/name …` prompt invokes, when it is not
/// enabled yet.
pub fn skill_selection_for_invocation(
    catalog: &SkillCatalog,
    active: &SkillSelection,
    prompt: &str,
) -> (r: Option<SkillSelection>)
    ensures
        r is Some <==> spec_selection_for_invocation(catalog@, active@, prompt@) is Some,
        r matches Some(s) ==> spec_selection_for_invocation(catalog@, active@, prompt@) == Some(
            s@,
        ),
{
    let skill = match invoked_skill(catalog, prompt) {
        Some(s) => s,
        None => {
            return None;
        },
    };
    if active.contains(skill.name.as_str()) {
        return None;
    }
    let mut selection = active.copied();
    selection.toggle(catalog, skill.name.as_str());
    Some(selection)
}

/// Invoking a known user-invocable skill always leaves it enabled, and asking again
/// once it is enabled changes nothing.
pub proof fn law_invocation_enables_the_skill(
    c: Seq<SkillView>,
    active: Set<Seq<char>>,
    prompt: Seq<char>,
)
    ensures
        spec_selection_for_invocation(c, active, prompt) matches Some(s) ==> s.contains(
            spec_invoked_skill(c, prompt)->0.name,
        ) && s == active.insert(spec_invoked_skill(c, prompt)->0.name),
        spec_selection_for_invocation(c, active, prompt) matches Some(s)
            ==> spec_selection_for_invocation(c, s, prompt) is None,
{
    if let Some(skill) = spec_invoked_skill(c, prompt) {
        let name = invoked_name(prompt)->0;
        lemma_first_named_bound(c, name);
    }
}

} // verus!
