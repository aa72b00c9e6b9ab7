//! The animation catalog: animations by name.

use crate::animation::{
    AnimationError,
    AnimationFrame,
    AnimationOption,
    FrameModel,
    OptionModel,
    PerFrameAnimation,
    frames_model,
    is_playable,
    options_model,
};
use vstd::prelude::*;

verus! {

/// A catalog as a mathematical value: the frames of each animation, by name.
pub type CatalogModel = Map<Seq<char>, Seq<FrameModel>>;

/// The animations that a simulation can play, each under its name.
#[derive(Debug)]
pub struct Animations {
    entries: Vec<(String, PerFrameAnimation)>,
}

spec fn has_distinct_names(entries: Seq<(String, PerFrameAnimation)>) -> bool {
    forall|i: int, j: int| 0 <= i < j < entries.len() ==> entries[i].0@ != entries[j].0@
}

spec fn holds_playable(entries: Seq<(String, PerFrameAnimation)>) -> bool {
    forall|i: int| 0 <= i < entries.len() ==> is_playable(#[trigger] entries[i].1@)
}

spec fn holds_name(entries: Seq<(String, PerFrameAnimation)>, name: Seq<char>) -> bool {
    exists|i: int| 0 <= i < entries.len() && entries[i].0@ == name
}

spec fn position_of(entries: Seq<(String, PerFrameAnimation)>, name: Seq<char>) -> int {
    choose|i: int| 0 <= i < entries.len() && entries[i].0@ == name
}

spec fn catalog_of(entries: Seq<(String, PerFrameAnimation)>) -> CatalogModel {
    Map::new(
        |name: Seq<char>| holds_name(entries, name),
        |name: Seq<char>| entries[position_of(entries, name)].1@,
    )
}

/// Every animation of the catalog can be played.
pub open spec fn is_playable_catalog(catalog: CatalogModel) -> bool {
    forall|name: Seq<char>| #[trigger] catalog.contains_key(name) ==> is_playable(catalog[name])
}

/// The option switches to an animation that the catalog does not hold.
pub open spec fn option_dangles(catalog: CatalogModel, option: OptionModel) -> bool {
    option matches OptionModel::SwitchToAnimation(name) && !catalog.contains_key(name)
}

/// One of the options does.
pub open spec fn options_dangle(catalog: CatalogModel, options: Seq<OptionModel>) -> bool {
    exists|k: int| 0 <= k < options.len() && option_dangles(catalog, #[trigger] options[k])
}

/// One of the options of one of the frames does.
pub open spec fn frames_dangle(catalog: CatalogModel, frames: Seq<FrameModel>) -> bool {
    exists|f: int| 0 <= f < frames.len() && options_dangle(catalog, #[trigger] frames[f].options)
}

/// Some animation of the catalog switches to an animation that the catalog
/// does not hold.
pub open spec fn has_dangling_switch(catalog: CatalogModel) -> bool {
    exists|name: Seq<char>| #[trigger]
        catalog.contains_key(name) && frames_dangle(catalog, catalog[name])
}

proof fn lemma_entry_is_listed(entries: Seq<(String, PerFrameAnimation)>, i: int)
    requires
        has_distinct_names(entries),
        0 <= i < entries.len(),
    ensures
        catalog_of(entries).contains_key(entries[i].0@),
        catalog_of(entries)[entries[i].0@] == entries[i].1@,
{
    assert(holds_name(entries, entries[i].0@));
}

/// A name that the catalog does not hold stands at no position.
proof fn lemma_name_is_new(entries: Seq<(String, PerFrameAnimation)>, name: Seq<char>)
    requires
        !catalog_of(entries).contains_key(name),
    ensures
        forall|j: int| 0 <= j < entries.len() ==> entries[j].0@ != name,
{
    assert forall|j: int| 0 <= j < entries.len() implies entries[j].0@ != name by {
        if entries[j].0@ == name {
            assert(holds_name(entries, name));
        }
    }
}

/// `after` holds a new entry at position `i`: either in place of the entry
/// of `before` with the same name, or behind the entries of `before`, none of
/// which has the name.
spec fn is_placed(
    before: Seq<(String, PerFrameAnimation)>,
    after: Seq<(String, PerFrameAnimation)>,
    i: int,
) -> bool {
    &&& 0 <= i < after.len()
    &&& {
        ||| after == before.update(i, after[i]) && i < before.len() && before[i].0@
            == after[i].0@
        ||| after == before.push(after[i]) && forall|j: int|
            0 <= j < before.len() ==> before[j].0@ != after[i].0@
    }
}

/// A catalog with a new entry placed in it is the old catalog with that
/// entry put in.
proof fn lemma_entry_placed(
    before: Seq<(String, PerFrameAnimation)>,
    after: Seq<(String, PerFrameAnimation)>,
    i: int,
)
    requires
        has_distinct_names(before),
        holds_playable(before),
        is_placed(before, after, i),
        is_playable(after[i].1@),
    ensures
        has_distinct_names(after),
        holds_playable(after),
        catalog_of(after) == catalog_of(before).insert(after[i].0@, after[i].1@),
{
    let name = after[i].0@;
    let added = after[i].1@;
    assert forall|j: int| 0 <= j < after.len() && j != i implies after[j] == before[j] by {}
    assert forall|n: Seq<char>|
        catalog_of(after).contains_key(n) <==> n == name || catalog_of(before).contains_key(
            n,
        ) by {
        if holds_name(after, n) && n != name {
            assert(before[position_of(after, n)].0@ == n);
        }
        if holds_name(before, n) && n != name {
            assert(after[position_of(before, n)].0@ == n);
        }
    }
    assert forall|n: Seq<char>| catalog_of(after).contains_key(n) implies catalog_of(after)[n]
        == catalog_of(before).insert(name, added)[n] by {
        let p = position_of(after, n);
        lemma_entry_is_listed(after, p);
        if p != i {
            lemma_entry_is_listed(before, p);
        }
    }
    assert(catalog_of(after) =~= catalog_of(before).insert(name, added));
}

impl View for Animations {
    type V = CatalogModel;

    closed spec fn view(&self) -> CatalogModel {
        catalog_of(self.entries@)
    }
}

impl Animations {
    /// What holds of every catalog in executable code.
    #[verifier::type_invariant]
    pub closed spec fn well_formed(self) -> bool {
        has_distinct_names(self.entries@) && holds_playable(self.entries@)
    }

    /// A catalog holds finitely many animations, and each can be played.
    pub proof fn lemma_well_formed(self)
        requires
            self.well_formed(),
        ensures
            is_playable_catalog(self@),
            self@.dom().finite(),
    {
        lemma_one_name_each(self.entries@);
        assert forall|name: Seq<char>| #[trigger] self@.contains_key(name) implies is_playable(
            self@[name],
        ) by {
            let p = position_of(self.entries@, name);
            lemma_entry_is_listed(self.entries@, p);
        }
    }

    /// A catalog without animations.
    pub fn new() -> (catalog: Self)
        ensures
            catalog@ == Map::<Seq<char>, Seq<FrameModel>>::empty(),
    {
        Animations { entries: Vec::new() }
    }

    fn position(&self, name: &String) -> (found: Option<usize>)
        ensures
            match found {
                Some(i) => i < self.entries.len() && self.entries@[i as int].0@ == name@,
                None => !self@.contains_key(name@),
            },
    {
        let mut i: usize = 0;
        while i < self.entries.len()
            invariant
                i <= self.entries.len(),
                forall|j: int| 0 <= j < i ==> self.entries@[j].0@ != name@,
            decreases self.entries.len() - i,
        {
            if self.entries[i].0 == *name {
                return Some(i);
            }
            i += 1;
        }
        None
    }

    /// The catalog with `animation` under `name`, in place of any animation
    /// that had the name before.
    pub fn with_animation(self, name: &str, animation: PerFrameAnimation) -> (catalog: Self)
        ensures
            catalog@ == self@.insert(name@, animation@),
    {
        proof {
            use_type_invariant(&self);
            use_type_invariant(&animation);
        }
        let owned: String = name.to_owned();
        let found = self.position(&owned);
        let ghost before = self.entries@;
        let mut entries = self.entries;
        match found {
            Some(i) => {
                entries.set(i, (owned, animation));
                proof {
                    lemma_entry_placed(before, entries@, i as int);
                }
            },
            None => {
                entries.push((owned, animation));
                proof {
                    lemma_name_is_new(before, name@);
                    lemma_entry_placed(before, entries@, before.len() as int);
                }
            },
        }
        Animations { entries }
    }

    /// The animation that the catalog holds under `name`, if any; for a
    /// caller that has the name as a `String`.
    pub fn find(&self, name: &String) -> (found: Option<&PerFrameAnimation>)
        ensures
            match found {
                Some(animation) => self@.contains_key(name@) && animation@ == self@[name@]
                    && is_playable(animation@),
                None => !self@.contains_key(name@),
            },
    {
        proof {
            use_type_invariant(self);
        }
        match self.position(name) {
            Some(i) => {
                let animation = &self.entries[i].1;
                proof {
                    lemma_entry_is_listed(self.entries@, i as int);
                }
                Some(animation)
            },
            None => None,
        }
    }

    /// The animation that the catalog holds under `name`, if any.
    pub fn get(&self, name: &str) -> (found: Option<&PerFrameAnimation>)
        ensures
            match found {
                Some(animation) => self@.contains_key(name@) && animation@ == self@[name@]
                    && is_playable(animation@),
                None => !self@.contains_key(name@),
            },
    {
        let owned: String = name.to_owned();
        self.find(&owned)
    }

    /// Whether the catalog holds an animation under `name`.
    pub fn contains(&self, name: &str) -> (held: bool)
        ensures
            held == self@.contains_key(name@),
    {
        let owned: String = name.to_owned();
        self.position(&owned).is_some()
    }

    fn switches_astray(&self, options: &Vec<AnimationOption>) -> (astray: bool)
        ensures
            astray == options_dangle(self@, options_model(options@)),
    {
        let ghost model = options_model(options@);
        let mut k: usize = 0;
        while k < options.len()
            invariant
                k <= options.len(),
                model == options_model(options@),
                forall|m: int| 0 <= m < k ==> !option_dangles(self@, #[trigger] model[m]),
            decreases options.len() - k,
        {
            assert(model[k as int] == options@[k as int]@);
            match &options[k] {
                AnimationOption::SwitchToAnimation(name) => {
                    if self.position(name).is_none() {
                        return true;
                    }
                },
                _ => {},
            }
            k += 1;
        }
        false
    }

    fn leaves_catalog(&self, frames: &Vec<AnimationFrame>) -> (astray: bool)
        ensures
            astray == frames_dangle(self@, frames_model(frames@)),
    {
        let ghost model = frames_model(frames@);
        let mut f: usize = 0;
        while f < frames.len()
            invariant
                f <= frames.len(),
                model == frames_model(frames@),
                forall|g: int| 0 <= g < f ==> !options_dangle(self@, #[trigger] model[g].options),
            decreases frames.len() - f,
        {
            if self.switches_astray(&frames[f].options) {
                assert(options_dangle(self@, model[f as int].options));
                return true;
            }
            f += 1;
        }
        false
    }

    /// Checks that every animation to which an option of the catalog switches
    /// is in the catalog, and fails with `UnknownAnimation` if one is not.
    pub fn validate(&self) -> (checked: Result<(), AnimationError>)
        ensures
            has_dangling_switch(self@) ==> checked == Err::<(), AnimationError>(
                AnimationError::UnknownAnimation,
            ),
            !has_dangling_switch(self@) ==> checked == Ok::<(), AnimationError>(()),
    {
        proof {
            use_type_invariant(self);
        }
        let mut e: usize = 0;
        while e < self.entries.len()
            invariant
                e <= self.entries.len(),
                has_distinct_names(self.entries@),
                forall|d: int| 0 <= d < e ==> !frames_dangle(self@, #[trigger] self.entries@[d].1@),
            decreases self.entries.len() - e,
        {
            proof {
                lemma_entry_is_listed(self.entries@, e as int);
            }
            let frames = self.entries[e].1.frames();
            if self.leaves_catalog(frames) {
                return Err(AnimationError::UnknownAnimation);
            }
            e += 1;
        }
        proof {
            assert forall|name: Seq<char>| #[trigger] self@.contains_key(name) implies !frames_dangle(
                self@,
                self@[name],
            ) by {
                let p = position_of(self.entries@, name);
                lemma_entry_is_listed(self.entries@, p);
            }
        }
        Ok(())
    }

    /// The number of animations in the catalog.
    pub fn len(&self) -> (count: usize)
        ensures
            count == self@.dom().len(),
            self@.dom().finite(),
    {
        proof {
            use_type_invariant(self);
            lemma_one_name_each(self.entries@);
        }
        self.entries.len()
    }
}

proof fn lemma_one_name_each(entries: Seq<(String, PerFrameAnimation)>)
    requires
        has_distinct_names(entries),
    ensures
        catalog_of(entries).dom().finite(),
        catalog_of(entries).dom().len() == entries.len(),
    decreases entries.len(),
{
    if entries.len() == 0 {
        assert(catalog_of(entries).dom() =~= Set::<Seq<char>>::empty());
    } else {
        let shorter = entries.drop_last();
        let name = entries.last().0@;
        lemma_one_name_each(shorter);
        assert forall|n: Seq<char>| #[trigger]
            catalog_of(entries).dom().contains(n) == catalog_of(shorter).dom().insert(
                name,
            ).contains(n) by {
            if holds_name(entries, n) && n != name {
                assert(shorter[position_of(entries, n)].0@ == n);
            }
            if holds_name(shorter, n) {
                assert(entries[position_of(shorter, n)].0@ == n);
            }
        }
        assert(catalog_of(entries).dom() =~= catalog_of(shorter).dom().insert(name));
        if holds_name(shorter, name) {
            assert(entries[position_of(shorter, name)].0@ == name);
        }
    }
}

} // verus!
