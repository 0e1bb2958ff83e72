//! The class names of an element.

use vstd::prelude::*;
use vstd::std_specs::cmp::{PartialEqSpec, PartialEqSpecImpl};
use bevy::utils::HashSet;
use crate::chars::clip;

verus! {

/// The set of class names that an element carries. Selectors test it.
#[verifier::external_body]
pub struct ElementClasses(HashSet<String>);

/// The class names that `classes` holds.
pub uninterp spec fn class_names(classes: ElementClasses) -> Set<Seq<char>>;

impl View for ElementClasses {
    type V = Set<Seq<char>>;

    open spec fn view(&self) -> Set<Seq<char>> {
        class_names(*self)
    }
}

impl ElementClasses {
    /// `HashSet::with_capacity` of hashbrown: a set that holds nothing.
    /// hashbrown panics where the size of the table in bytes is more than
    /// the machine can count, so room is asked for 2^20 names at most, which
    /// is far from it.
    #[verifier::external_body]
    pub(crate) fn with_capacity(capacity: usize) -> (r: ElementClasses)
        requires
            capacity <= 1_048_576,
        ensures
            class_names(r) == Set::<Seq<char>>::empty(),
    {
        ElementClasses(HashSet::with_capacity(capacity))
    }

    /// `HashSet::contains` of hashbrown: whether the set holds `cls`.
    #[verifier::external_body]
    pub(crate) fn holds(&self, cls: &str) -> (r: bool)
        ensures
            r == class_names(*self).contains(cls@),
    {
        self.0.contains(cls)
    }

    /// `HashSet::insert` of hashbrown: afterwards the set holds what it
    /// held, and `cls`.
    #[verifier::external_body]
    pub(crate) fn insert(&mut self, cls: &str)
        ensures
            class_names(*final(self)) == class_names(*old(self)).insert(cls@),
    {
        self.0.insert(cls.to_string());
    }

    /// `HashSet::remove` of hashbrown: afterwards the set holds what it
    /// held, but `cls`.
    #[verifier::external_body]
    pub(crate) fn remove(&mut self, cls: &str)
        ensures
            class_names(*final(self)) == class_names(*old(self)).remove(cls@),
    {
        self.0.remove(cls);
    }

    /// Adds `cls` to the class names of the element.
    pub fn add_class(&mut self, cls: &str)
        ensures
            final(self)@ == old(self)@.insert(cls@),
    {
        self.insert(cls);
    }

    /// Removes `cls` from the class names of the element.
    pub fn remove_class(&mut self, cls: &str)
        ensures
            final(self)@ == old(self)@.remove(cls@),
    {
        self.remove(cls);
    }

    /// `HashSet::len` of hashbrown: the number of names that the set holds.
    #[verifier::external_body]
    pub(crate) fn size(&self) -> (r: usize)
        ensures
            r == class_names(*self).len(),
    {
        self.0.len()
    }

    /// The number of class names that the element carries.
    pub fn len(&self) -> (r: usize)
        ensures
            r == self@.len(),
    {
        self.size()
    }

    /// `Clone::clone` of hashbrown's `HashSet`: a set that holds the same
    /// names.
    #[verifier::external_body]
    pub(crate) fn copy(&self) -> (r: ElementClasses)
        ensures
            class_names(r) == class_names(*self),
    {
        ElementClasses(self.0.clone())
    }

    /// Whether the element carries the class `cls`.
    pub fn contains(&self, cls: &str) -> (r: bool)
        ensures
            r == self@.contains(cls@),
    {
        self.holds(cls)
    }
}

impl Clone for ElementClasses {
    fn clone(&self) -> (r: ElementClasses)
        ensures
            r@ == self@,
    {
        self.copy()
    }
}

impl Default for ElementClasses {
    /// No class names.
    fn default() -> (r: ElementClasses)
        ensures
            r@ == Set::<Seq<char>>::empty(),
    {
        ElementClasses::with_capacity(0)
    }
}

/// Class names under a condition: where it does not hold, they count as
/// none.
pub struct ConditionalClassNames<'a, C: ClassNames<'a>> {
    pub inner: C,
    pub enabled: bool,
    pub marker: core::marker::PhantomData<&'a ()>,
}

impl<'a, C: ClassNames<'a> + Clone> Clone for ConditionalClassNames<'a, C> {
    fn clone(&self) -> (r: Self)
        ensures
            r.enabled == self.enabled,
    {
        ConditionalClassNames {
            inner: self.inner.clone(),
            enabled: self.enabled,
            marker: self.marker,
        }
    }
}

impl<'a, C: ClassNames<'a> + PartialEq> PartialEq for ConditionalClassNames<'a, C> {
    fn eq(&self, other: &Self) -> (r: bool) {
        self.inner == other.inner && self.enabled == other.enabled
    }
}

impl<'a, C: ClassNames<'a> + PartialEq> PartialEqSpecImpl for ConditionalClassNames<'a, C> {
    open spec fn obeys_eq_spec() -> bool {
        <C as PartialEqSpec>::obeys_eq_spec()
    }

    /// The same names under the same condition.
    open spec fn eq_spec(&self, other: &Self) -> bool {
        self.inner.eq_spec(&other.inner) && self.enabled == other.enabled
    }
}

/// Class names to give to an element: a name, a tuple of class names, or
/// either under a condition.
pub trait ClassNames<'a>: Send {
    /// The names that are given.
    spec fn names(&self) -> Set<Seq<char>>;

    /// The number of names that are written, the same name counted as
    /// often as it is written.
    spec fn count(&self) -> nat;

    /// Whether this is the empty tuple, or empty under its condition.
    spec fn empty(&self) -> bool;

    /// The number of names, or the largest `usize` where it does not fit.
    fn len(&self) -> (r: usize)
        ensures
            r == clip(self.count()),
    ;

    /// Whether no names are written.
    fn is_empty(&self) -> (r: bool)
        ensures
            r == self.empty(),
    ;

    /// Adds the names to `classes`.
    fn add_classes(&self, classes: &mut ElementClasses)
        ensures
            final(classes)@ == old(classes)@.union(self.names()),
    ;

    /// These class names under the condition `enabled`.
    fn if_true(self, enabled: bool) -> (r: ConditionalClassNames<'a, Self>) where Self: Sized
        ensures
            r.inner == self,
            r.enabled == enabled,
    {
        ConditionalClassNames { inner: self, enabled, marker: core::marker::PhantomData }
    }

    /// The names as the class names of an element.
    fn to_set(&self) -> (r: ElementClasses) where Self: Sized
        ensures
            r@ == self.names(),
    {
        // Room for the names, as far as a table can be asked for.
        let count = self.len();
        let room: usize = if count > 1_048_576 {
            1_048_576
        } else {
            count
        };
        let mut result = ElementClasses::with_capacity(room);
        self.add_classes(&mut result);
        assert(Set::<Seq<char>>::empty().union(self.names()) =~= self.names());
        result
    }
}

impl<'a> ClassNames<'a> for () {
    open spec fn names(&self) -> Set<Seq<char>> {
        Set::empty()
    }

    open spec fn count(&self) -> nat {
        0
    }

    open spec fn empty(&self) -> bool {
        true
    }

    fn len(&self) -> (r: usize) {
        assert(self.count() == 0);
        0
    }

    fn is_empty(&self) -> (r: bool) {
        true
    }

    fn add_classes(&self, classes: &mut ElementClasses) {
        assert(classes@.union(Set::<Seq<char>>::empty()) =~= classes@);
    }
}

impl<'a> ClassNames<'a> for String {
    open spec fn names(&self) -> Set<Seq<char>> {
        set![self@]
    }

    open spec fn count(&self) -> nat {
        1
    }

    open spec fn empty(&self) -> bool {
        false
    }

    fn len(&self) -> (r: usize) {
        assert(self.count() == 1);
        1
    }

    fn is_empty(&self) -> (r: bool) {
        false
    }

    fn add_classes(&self, classes: &mut ElementClasses) {
        let ghost before = classes@;
        classes.add_class(self.as_str());
        assert(before.insert(self@) =~= before.union(set![self@]));
    }
}

impl<'a> ClassNames<'a> for &str {
    open spec fn names(&self) -> Set<Seq<char>> {
        set![self@]
    }

    open spec fn count(&self) -> nat {
        1
    }

    open spec fn empty(&self) -> bool {
        false
    }

    fn len(&self) -> (r: usize) {
        assert(self.count() == 1);
        1
    }

    fn is_empty(&self) -> (r: bool) {
        false
    }

    fn add_classes(&self, classes: &mut ElementClasses) {
        let ghost before = classes@;
        classes.add_class(self);
        assert(before.insert(self@) =~= before.union(set![self@]));
    }
}

impl<'a, C: ClassNames<'a>> ClassNames<'a> for ConditionalClassNames<'a, C> {
    open spec fn names(&self) -> Set<Seq<char>> {
        if self.enabled {
            self.inner.names()
        } else {
            Set::empty()
        }
    }

    open spec fn count(&self) -> nat {
        if self.enabled {
            self.inner.count()
        } else {
            0
        }
    }

    open spec fn empty(&self) -> bool {
        if self.enabled {
            self.inner.empty()
        } else {
            true
        }
    }

    fn len(&self) -> (r: usize) {
        assert(self.count() == if self.enabled {
            self.inner.count()
        } else {
            0
        });
        if self.enabled {
            self.inner.len()
        } else {
            0
        }
    }

    fn is_empty(&self) -> (r: bool) {
        if self.enabled {
            self.inner.is_empty()
        } else {
            true
        }
    }

    fn add_classes(&self, classes: &mut ElementClasses) {
        if self.enabled {
            self.inner.add_classes(classes);
        } else {
            assert(classes@.union(Set::<Seq<char>>::empty()) =~= classes@);
        }
    }
}

/// The sum of two counts, or the largest `usize` where it does not fit.
pub fn add_counts(a: usize, b: usize) -> (r: usize)
    ensures
        r == clip((a + b) as nat),
{
    if a > usize::MAX - b {
        usize::MAX
    } else {
        a + b
    }
}


impl<'a, A: ClassNames<'a>> ClassNames<'a> for (A,) {
    open spec fn names(&self) -> Set<Seq<char>> {
        self.0.names()
    }

    open spec fn count(&self) -> nat {
        self.0.count()
    }

    open spec fn empty(&self) -> bool {
        false
    }

    fn len(&self) -> (r: usize) {
        assert(self.count() == self.0.count());
        self.0.len()
    }

    fn is_empty(&self) -> (r: bool) {
        false
    }

    fn add_classes(&self, classes: &mut ElementClasses) {
        self.0.add_classes(classes);
    }
}

impl<'a, A: ClassNames<'a>, B: ClassNames<'a>> ClassNames<'a> for (A, B) {
    open spec fn names(&self) -> Set<Seq<char>> {
        self.0.names().union(self.1.names())
    }

    open spec fn count(&self) -> nat {
        self.0.count() + self.1.count()
    }

    open spec fn empty(&self) -> bool {
        false
    }

    fn len(&self) -> (r: usize) {
        assert(self.count() == self.0.count() + self.1.count());
        let mut total = self.0.len();
        total = add_counts(total, self.1.len());
        total
    }

    fn is_empty(&self) -> (r: bool) {
        false
    }

    fn add_classes(&self, classes: &mut ElementClasses) {
        self.0.add_classes(classes);
        self.1.add_classes(classes);
    }
}

impl<'a, A: ClassNames<'a>, B: ClassNames<'a>, C: ClassNames<'a>> ClassNames<'a> for (A, B, C) {
    open spec fn names(&self) -> Set<Seq<char>> {
        self.0.names().union(self.1.names()).union(self.2.names())
    }

    open spec fn count(&self) -> nat {
        self.0.count() + self.1.count() + self.2.count()
    }

    open spec fn empty(&self) -> bool {
        false
    }

    fn len(&self) -> (r: usize) {
        assert(self.count() == self.0.count() + self.1.count() + self.2.count());
        let mut total = self.0.len();
        total = add_counts(total, self.1.len());
        total = add_counts(total, self.2.len());
        total
    }

    fn is_empty(&self) -> (r: bool) {
        false
    }

    fn add_classes(&self, classes: &mut ElementClasses) {
        self.0.add_classes(classes);
        self.1.add_classes(classes);
        self.2.add_classes(classes);
    }
}

impl<
    'a,
    A: ClassNames<'a>,
    B: ClassNames<'a>,
    C: ClassNames<'a>,
    D: ClassNames<'a>,
> ClassNames<'a> for (A, B, C, D) {
    open spec fn names(&self) -> Set<Seq<char>> {
        self.0.names().union(self.1.names()).union(self.2.names()).union(self.3.names())
    }

    open spec fn count(&self) -> nat {
        self.0.count() + self.1.count() + self.2.count() + self.3.count()
    }

    open spec fn empty(&self) -> bool {
        false
    }

    fn len(&self) -> (r: usize) {
        assert(self.count() == self.0.count() + self.1.count() + self.2.count() + self.3.count());
        let mut total = self.0.len();
        total = add_counts(total, self.1.len());
        total = add_counts(total, self.2.len());
        total = add_counts(total, self.3.len());
        total
    }

    fn is_empty(&self) -> (r: bool) {
        false
    }

    fn add_classes(&self, classes: &mut ElementClasses) {
        self.0.add_classes(classes);
        self.1.add_classes(classes);
        self.2.add_classes(classes);
        self.3.add_classes(classes);
    }
}

impl<
    'a,
    A: ClassNames<'a>,
    B: ClassNames<'a>,
    C: ClassNames<'a>,
    D: ClassNames<'a>,
    E: ClassNames<'a>,
> ClassNames<'a> for (A, B, C, D, E) {
    open spec fn names(&self) -> Set<Seq<char>> {
        self.0.names()
            .union(self.1.names())
            .union(self.2.names())
            .union(self.3.names())
            .union(self.4.names())
    }

    open spec fn count(&self) -> nat {
        self.0.count() + self.1.count() + self.2.count() + self.3.count() + self.4.count()
    }

    open spec fn empty(&self) -> bool {
        false
    }

    fn len(&self) -> (r: usize) {
        assert(self.count() == self.0.count()
            + self.1.count()
            + self.2.count()
            + self.3.count()
            + self.4.count());
        let mut total = self.0.len();
        total = add_counts(total, self.1.len());
        total = add_counts(total, self.2.len());
        total = add_counts(total, self.3.len());
        total = add_counts(total, self.4.len());
        total
    }

    fn is_empty(&self) -> (r: bool) {
        false
    }

    fn add_classes(&self, classes: &mut ElementClasses) {
        self.0.add_classes(classes);
        self.1.add_classes(classes);
        self.2.add_classes(classes);
        self.3.add_classes(classes);
        self.4.add_classes(classes);
    }
}

impl<
    'a,
    A: ClassNames<'a>,
    B: ClassNames<'a>,
    C: ClassNames<'a>,
    D: ClassNames<'a>,
    E: ClassNames<'a>,
    F: ClassNames<'a>,
> ClassNames<'a> for (A, B, C, D, E, F) {
    open spec fn names(&self) -> Set<Seq<char>> {
        self.0.names()
            .union(self.1.names())
            .union(self.2.names())
            .union(self.3.names())
            .union(self.4.names())
            .union(self.5.names())
    }

    open spec fn count(&self) -> nat {
        self.0.count()
            + self.1.count()
            + self.2.count()
            + self.3.count()
            + self.4.count()
            + self.5.count()
    }

    open spec fn empty(&self) -> bool {
        false
    }

    fn len(&self) -> (r: usize) {
        assert(self.count() == self.0.count()
            + self.1.count()
            + self.2.count()
            + self.3.count()
            + self.4.count()
            + self.5.count());
        let mut total = self.0.len();
        total = add_counts(total, self.1.len());
        total = add_counts(total, self.2.len());
        total = add_counts(total, self.3.len());
        total = add_counts(total, self.4.len());
        total = add_counts(total, self.5.len());
        total
    }

    fn is_empty(&self) -> (r: bool) {
        false
    }

    fn add_classes(&self, classes: &mut ElementClasses) {
        self.0.add_classes(classes);
        self.1.add_classes(classes);
        self.2.add_classes(classes);
        self.3.add_classes(classes);
        self.4.add_classes(classes);
        self.5.add_classes(classes);
    }
}

impl<
    'a,
    A: ClassNames<'a>,
    B: ClassNames<'a>,
    C: ClassNames<'a>,
    D: ClassNames<'a>,
    E: ClassNames<'a>,
    F: ClassNames<'a>,
    G: ClassNames<'a>,
> ClassNames<'a> for (A, B, C, D, E, F, G) {
    open spec fn names(&self) -> Set<Seq<char>> {
        self.0.names()
            .union(self.1.names())
            .union(self.2.names())
            .union(self.3.names())
            .union(self.4.names())
            .union(self.5.names())
            .union(self.6.names())
    }

    open spec fn count(&self) -> nat {
        self.0.count()
            + self.1.count()
            + self.2.count()
            + self.3.count()
            + self.4.count()
            + self.5.count()
            + self.6.count()
    }

    open spec fn empty(&self) -> bool {
        false
    }

    fn len(&self) -> (r: usize) {
        assert(self.count() == self.0.count()
            + self.1.count()
            + self.2.count()
            + self.3.count()
            + self.4.count()
            + self.5.count()
            + self.6.count());
        let mut total = self.0.len();
        total = add_counts(total, self.1.len());
        total = add_counts(total, self.2.len());
        total = add_counts(total, self.3.len());
        total = add_counts(total, self.4.len());
        total = add_counts(total, self.5.len());
        total = add_counts(total, self.6.len());
        total
    }

    fn is_empty(&self) -> (r: bool) {
        false
    }

    fn add_classes(&self, classes: &mut ElementClasses) {
        self.0.add_classes(classes);
        self.1.add_classes(classes);
        self.2.add_classes(classes);
        self.3.add_classes(classes);
        self.4.add_classes(classes);
        self.5.add_classes(classes);
        self.6.add_classes(classes);
    }
}

impl<
    'a,
    A: ClassNames<'a>,
    B: ClassNames<'a>,
    C: ClassNames<'a>,
    D: ClassNames<'a>,
    E: ClassNames<'a>,
    F: ClassNames<'a>,
    G: ClassNames<'a>,
    H: ClassNames<'a>,
> ClassNames<'a> for (A, B, C, D, E, F, G, H) {
    open spec fn names(&self) -> Set<Seq<char>> {
        self.0.names()
            .union(self.1.names())
            .union(self.2.names())
            .union(self.3.names())
            .union(self.4.names())
            .union(self.5.names())
            .union(self.6.names())
            .union(self.7.names())
    }

    open spec fn count(&self) -> nat {
        self.0.count()
            + self.1.count()
            + self.2.count()
            + self.3.count()
            + self.4.count()
            + self.5.count()
            + self.6.count()
            + self.7.count()
    }

    open spec fn empty(&self) -> bool {
        false
    }

    fn len(&self) -> (r: usize) {
        assert(self.count() == self.0.count()
            + self.1.count()
            + self.2.count()
            + self.3.count()
            + self.4.count()
            + self.5.count()
            + self.6.count()
            + self.7.count());
        let mut total = self.0.len();
        total = add_counts(total, self.1.len());
        total = add_counts(total, self.2.len());
        total = add_counts(total, self.3.len());
        total = add_counts(total, self.4.len());
        total = add_counts(total, self.5.len());
        total = add_counts(total, self.6.len());
        total = add_counts(total, self.7.len());
        total
    }

    fn is_empty(&self) -> (r: bool) {
        false
    }

    fn add_classes(&self, classes: &mut ElementClasses) {
        self.0.add_classes(classes);
        self.1.add_classes(classes);
        self.2.add_classes(classes);
        self.3.add_classes(classes);
        self.4.add_classes(classes);
        self.5.add_classes(classes);
        self.6.add_classes(classes);
        self.7.add_classes(classes);
    }
}

impl<
    'a,
    A: ClassNames<'a>,
    B: ClassNames<'a>,
    C: ClassNames<'a>,
    D: ClassNames<'a>,
    E: ClassNames<'a>,
    F: ClassNames<'a>,
    G: ClassNames<'a>,
    H: ClassNames<'a>,
    I: ClassNames<'a>,
> ClassNames<'a> for (A, B, C, D, E, F, G, H, I) {
    open spec fn names(&self) -> Set<Seq<char>> {
        self.0.names()
            .union(self.1.names())
            .union(self.2.names())
            .union(self.3.names())
            .union(self.4.names())
            .union(self.5.names())
            .union(self.6.names())
            .union(self.7.names())
            .union(self.8.names())
    }

    open spec fn count(&self) -> nat {
        self.0.count()
            + self.1.count()
            + self.2.count()
            + self.3.count()
            + self.4.count()
            + self.5.count()
            + self.6.count()
            + self.7.count()
            + self.8.count()
    }

    open spec fn empty(&self) -> bool {
        false
    }

    fn len(&self) -> (r: usize) {
        assert(self.count() == self.0.count()
            + self.1.count()
            + self.2.count()
            + self.3.count()
            + self.4.count()
            + self.5.count()
            + self.6.count()
            + self.7.count()
            + self.8.count());
        let mut total = self.0.len();
        total = add_counts(total, self.1.len());
        total = add_counts(total, self.2.len());
        total = add_counts(total, self.3.len());
        total = add_counts(total, self.4.len());
        total = add_counts(total, self.5.len());
        total = add_counts(total, self.6.len());
        total = add_counts(total, self.7.len());
        total = add_counts(total, self.8.len());
        total
    }

    fn is_empty(&self) -> (r: bool) {
        false
    }

    fn add_classes(&self, classes: &mut ElementClasses) {
        self.0.add_classes(classes);
        self.1.add_classes(classes);
        self.2.add_classes(classes);
        self.3.add_classes(classes);
        self.4.add_classes(classes);
        self.5.add_classes(classes);
        self.6.add_classes(classes);
        self.7.add_classes(classes);
        self.8.add_classes(classes);
    }
}

impl<
    'a,
    A: ClassNames<'a>,
    B: ClassNames<'a>,
    C: ClassNames<'a>,
    D: ClassNames<'a>,
    E: ClassNames<'a>,
    F: ClassNames<'a>,
    G: ClassNames<'a>,
    H: ClassNames<'a>,
    I: ClassNames<'a>,
    J: ClassNames<'a>,
> ClassNames<'a> for (A, B, C, D, E, F, G, H, I, J) {
    open spec fn names(&self) -> Set<Seq<char>> {
        self.0.names()
            .union(self.1.names())
            .union(self.2.names())
            .union(self.3.names())
            .union(self.4.names())
            .union(self.5.names())
            .union(self.6.names())
            .union(self.7.names())
            .union(self.8.names())
            .union(self.9.names())
    }

    open spec fn count(&self) -> nat {
        self.0.count()
            + self.1.count()
            + self.2.count()
            + self.3.count()
            + self.4.count()
            + self.5.count()
            + self.6.count()
            + self.7.count()
            + self.8.count()
            + self.9.count()
    }

    open spec fn empty(&self) -> bool {
        false
    }

    fn len(&self) -> (r: usize) {
        assert(self.count() == self.0.count()
            + self.1.count()
            + self.2.count()
            + self.3.count()
            + self.4.count()
            + self.5.count()
            + self.6.count()
            + self.7.count()
            + self.8.count()
            + self.9.count());
        let mut total = self.0.len();
        total = add_counts(total, self.1.len());
        total = add_counts(total, self.2.len());
        total = add_counts(total, self.3.len());
        total = add_counts(total, self.4.len());
        total = add_counts(total, self.5.len());
        total = add_counts(total, self.6.len());
        total = add_counts(total, self.7.len());
        total = add_counts(total, self.8.len());
        total = add_counts(total, self.9.len());
        total
    }

    fn is_empty(&self) -> (r: bool) {
        false
    }

    fn add_classes(&self, classes: &mut ElementClasses) {
        self.0.add_classes(classes);
        self.1.add_classes(classes);
        self.2.add_classes(classes);
        self.3.add_classes(classes);
        self.4.add_classes(classes);
        self.5.add_classes(classes);
        self.6.add_classes(classes);
        self.7.add_classes(classes);
        self.8.add_classes(classes);
        self.9.add_classes(classes);
    }
}

impl<
    'a,
    A: ClassNames<'a>,
    B: ClassNames<'a>,
    C: ClassNames<'a>,
    D: ClassNames<'a>,
    E: ClassNames<'a>,
    F: ClassNames<'a>,
    G: ClassNames<'a>,
    H: ClassNames<'a>,
    I: ClassNames<'a>,
    J: ClassNames<'a>,
    K: ClassNames<'a>,
> ClassNames<'a> for (A, B, C, D, E, F, G, H, I, J, K) {
    open spec fn names(&self) -> Set<Seq<char>> {
        self.0.names()
            .union(self.1.names())
            .union(self.2.names())
            .union(self.3.names())
            .union(self.4.names())
            .union(self.5.names())
            .union(self.6.names())
            .union(self.7.names())
            .union(self.8.names())
            .union(self.9.names())
            .union(self.10.names())
    }

    open spec fn count(&self) -> nat {
        self.0.count()
            + self.1.count()
            + self.2.count()
            + self.3.count()
            + self.4.count()
            + self.5.count()
            + self.6.count()
            + self.7.count()
            + self.8.count()
            + self.9.count()
            + self.10.count()
    }

    open spec fn empty(&self) -> bool {
        false
    }

    fn len(&self) -> (r: usize) {
        assert(self.count() == self.0.count()
            + self.1.count()
            + self.2.count()
            + self.3.count()
            + self.4.count()
            + self.5.count()
            + self.6.count()
            + self.7.count()
            + self.8.count()
            + self.9.count()
            + self.10.count());
        let mut total = self.0.len();
        total = add_counts(total, self.1.len());
        total = add_counts(total, self.2.len());
        total = add_counts(total, self.3.len());
        total = add_counts(total, self.4.len());
        total = add_counts(total, self.5.len());
        total = add_counts(total, self.6.len());
        total = add_counts(total, self.7.len());
        total = add_counts(total, self.8.len());
        total = add_counts(total, self.9.len());
        total = add_counts(total, self.10.len());
        total
    }

    fn is_empty(&self) -> (r: bool) {
        false
    }

    fn add_classes(&self, classes: &mut ElementClasses) {
        self.0.add_classes(classes);
        self.1.add_classes(classes);
        self.2.add_classes(classes);
        self.3.add_classes(classes);
        self.4.add_classes(classes);
        self.5.add_classes(classes);
        self.6.add_classes(classes);
        self.7.add_classes(classes);
        self.8.add_classes(classes);
        self.9.add_classes(classes);
        self.10.add_classes(classes);
    }
}

impl<
    'a,
    A: ClassNames<'a>,
    B: ClassNames<'a>,
    C: ClassNames<'a>,
    D: ClassNames<'a>,
    E: ClassNames<'a>,
    F: ClassNames<'a>,
    G: ClassNames<'a>,
    H: ClassNames<'a>,
    I: ClassNames<'a>,
    J: ClassNames<'a>,
    K: ClassNames<'a>,
    L: ClassNames<'a>,
> ClassNames<'a> for (A, B, C, D, E, F, G, H, I, J, K, L) {
    open spec fn names(&self) -> Set<Seq<char>> {
        self.0.names()
            .union(self.1.names())
            .union(self.2.names())
            .union(self.3.names())
            .union(self.4.names())
            .union(self.5.names())
            .union(self.6.names())
            .union(self.7.names())
            .union(self.8.names())
            .union(self.9.names())
            .union(self.10.names())
            .union(self.11.names())
    }

    open spec fn count(&self) -> nat {
        self.0.count()
            + self.1.count()
            + self.2.count()
            + self.3.count()
            + self.4.count()
            + self.5.count()
            + self.6.count()
            + self.7.count()
            + self.8.count()
            + self.9.count()
            + self.10.count()
            + self.11.count()
    }

    open spec fn empty(&self) -> bool {
        false
    }

    fn len(&self) -> (r: usize) {
        assert(self.count() == self.0.count()
            + self.1.count()
            + self.2.count()
            + self.3.count()
            + self.4.count()
            + self.5.count()
            + self.6.count()
            + self.7.count()
            + self.8.count()
            + self.9.count()
            + self.10.count()
            + self.11.count());
        let mut total = self.0.len();
        total = add_counts(total, self.1.len());
        total = add_counts(total, self.2.len());
        total = add_counts(total, self.3.len());
        total = add_counts(total, self.4.len());
        total = add_counts(total, self.5.len());
        total = add_counts(total, self.6.len());
        total = add_counts(total, self.7.len());
        total = add_counts(total, self.8.len());
        total = add_counts(total, self.9.len());
        total = add_counts(total, self.10.len());
        total = add_counts(total, self.11.len());
        total
    }

    fn is_empty(&self) -> (r: bool) {
        false
    }

    fn add_classes(&self, classes: &mut ElementClasses) {
        self.0.add_classes(classes);
        self.1.add_classes(classes);
        self.2.add_classes(classes);
        self.3.add_classes(classes);
        self.4.add_classes(classes);
        self.5.add_classes(classes);
        self.6.add_classes(classes);
        self.7.add_classes(classes);
        self.8.add_classes(classes);
        self.9.add_classes(classes);
        self.10.add_classes(classes);
        self.11.add_classes(classes);
    }
}

impl<
    'a,
    A: ClassNames<'a>,
    B: ClassNames<'a>,
    C: ClassNames<'a>,
    D: ClassNames<'a>,
    E: ClassNames<'a>,
    F: ClassNames<'a>,
    G: ClassNames<'a>,
    H: ClassNames<'a>,
    I: ClassNames<'a>,
    J: ClassNames<'a>,
    K: ClassNames<'a>,
    L: ClassNames<'a>,
    M: ClassNames<'a>,
> ClassNames<'a> for (A, B, C, D, E, F, G, H, I, J, K, L, M) {
    open spec fn names(&self) -> Set<Seq<char>> {
        self.0.names()
            .union(self.1.names())
            .union(self.2.names())
            .union(self.3.names())
            .union(self.4.names())
            .union(self.5.names())
            .union(self.6.names())
            .union(self.7.names())
            .union(self.8.names())
            .union(self.9.names())
            .union(self.10.names())
            .union(self.11.names())
            .union(self.12.names())
    }

    open spec fn count(&self) -> nat {
        self.0.count()
            + self.1.count()
            + self.2.count()
            + self.3.count()
            + self.4.count()
            + self.5.count()
            + self.6.count()
            + self.7.count()
            + self.8.count()
            + self.9.count()
            + self.10.count()
            + self.11.count()
            + self.12.count()
    }

    open spec fn empty(&self) -> bool {
        false
    }

    fn len(&self) -> (r: usize) {
        assert(self.count() == self.0.count()
            + self.1.count()
            + self.2.count()
            + self.3.count()
            + self.4.count()
            + self.5.count()
            + self.6.count()
            + self.7.count()
            + self.8.count()
            + self.9.count()
            + self.10.count()
            + self.11.count()
            + self.12.count());
        let mut total = self.0.len();
        total = add_counts(total, self.1.len());
        total = add_counts(total, self.2.len());
        total = add_counts(total, self.3.len());
        total = add_counts(total, self.4.len());
        total = add_counts(total, self.5.len());
        total = add_counts(total, self.6.len());
        total = add_counts(total, self.7.len());
        total = add_counts(total, self.8.len());
        total = add_counts(total, self.9.len());
        total = add_counts(total, self.10.len());
        total = add_counts(total, self.11.len());
        total = add_counts(total, self.12.len());
        total
    }

    fn is_empty(&self) -> (r: bool) {
        false
    }

    fn add_classes(&self, classes: &mut ElementClasses) {
        self.0.add_classes(classes);
        self.1.add_classes(classes);
        self.2.add_classes(classes);
        self.3.add_classes(classes);
        self.4.add_classes(classes);
        self.5.add_classes(classes);
        self.6.add_classes(classes);
        self.7.add_classes(classes);
        self.8.add_classes(classes);
        self.9.add_classes(classes);
        self.10.add_classes(classes);
        self.11.add_classes(classes);
        self.12.add_classes(classes);
    }
}

impl<
    'a,
    A: ClassNames<'a>,
    B: ClassNames<'a>,
    C: ClassNames<'a>,
    D: ClassNames<'a>,
    E: ClassNames<'a>,
    F: ClassNames<'a>,
    G: ClassNames<'a>,
    H: ClassNames<'a>,
    I: ClassNames<'a>,
    J: ClassNames<'a>,
    K: ClassNames<'a>,
    L: ClassNames<'a>,
    M: ClassNames<'a>,
    N: ClassNames<'a>,
> ClassNames<'a> for (A, B, C, D, E, F, G, H, I, J, K, L, M, N) {
    open spec fn names(&self) -> Set<Seq<char>> {
        self.0.names()
            .union(self.1.names())
            .union(self.2.names())
            .union(self.3.names())
            .union(self.4.names())
            .union(self.5.names())
            .union(self.6.names())
            .union(self.7.names())
            .union(self.8.names())
            .union(self.9.names())
            .union(self.10.names())
            .union(self.11.names())
            .union(self.12.names())
            .union(self.13.names())
    }

    open spec fn count(&self) -> nat {
        self.0.count()
            + self.1.count()
            + self.2.count()
            + self.3.count()
            + self.4.count()
            + self.5.count()
            + self.6.count()
            + self.7.count()
            + self.8.count()
            + self.9.count()
            + self.10.count()
            + self.11.count()
            + self.12.count()
            + self.13.count()
    }

    open spec fn empty(&self) -> bool {
        false
    }

    fn len(&self) -> (r: usize) {
        assert(self.count() == self.0.count()
            + self.1.count()
            + self.2.count()
            + self.3.count()
            + self.4.count()
            + self.5.count()
            + self.6.count()
            + self.7.count()
            + self.8.count()
            + self.9.count()
            + self.10.count()
            + self.11.count()
            + self.12.count()
            + self.13.count());
        let mut total = self.0.len();
        total = add_counts(total, self.1.len());
        total = add_counts(total, self.2.len());
        total = add_counts(total, self.3.len());
        total = add_counts(total, self.4.len());
        total = add_counts(total, self.5.len());
        total = add_counts(total, self.6.len());
        total = add_counts(total, self.7.len());
        total = add_counts(total, self.8.len());
        total = add_counts(total, self.9.len());
        total = add_counts(total, self.10.len());
        total = add_counts(total, self.11.len());
        total = add_counts(total, self.12.len());
        total = add_counts(total, self.13.len());
        total
    }

    fn is_empty(&self) -> (r: bool) {
        false
    }

    fn add_classes(&self, classes: &mut ElementClasses) {
        self.0.add_classes(classes);
        self.1.add_classes(classes);
        self.2.add_classes(classes);
        self.3.add_classes(classes);
        self.4.add_classes(classes);
        self.5.add_classes(classes);
        self.6.add_classes(classes);
        self.7.add_classes(classes);
        self.8.add_classes(classes);
        self.9.add_classes(classes);
        self.10.add_classes(classes);
        self.11.add_classes(classes);
        self.12.add_classes(classes);
        self.13.add_classes(classes);
    }
}

impl<
    'a,
    A: ClassNames<'a>,
    B: ClassNames<'a>,
    C: ClassNames<'a>,
    D: ClassNames<'a>,
    E: ClassNames<'a>,
    F: ClassNames<'a>,
    G: ClassNames<'a>,
    H: ClassNames<'a>,
    I: ClassNames<'a>,
    J: ClassNames<'a>,
    K: ClassNames<'a>,
    L: ClassNames<'a>,
    M: ClassNames<'a>,
    N: ClassNames<'a>,
    O: ClassNames<'a>,
> ClassNames<'a> for (A, B, C, D, E, F, G, H, I, J, K, L, M, N, O) {
    open spec fn names(&self) -> Set<Seq<char>> {
        self.0.names()
            .union(self.1.names())
            .union(self.2.names())
            .union(self.3.names())
            .union(self.4.names())
            .union(self.5.names())
            .union(self.6.names())
            .union(self.7.names())
            .union(self.8.names())
            .union(self.9.names())
            .union(self.10.names())
            .union(self.11.names())
            .union(self.12.names())
            .union(self.13.names())
            .union(self.14.names())
    }

    open spec fn count(&self) -> nat {
        self.0.count()
            + self.1.count()
            + self.2.count()
            + self.3.count()
            + self.4.count()
            + self.5.count()
            + self.6.count()
            + self.7.count()
            + self.8.count()
            + self.9.count()
            + self.10.count()
            + self.11.count()
            + self.12.count()
            + self.13.count()
            + self.14.count()
    }

    open spec fn empty(&self) -> bool {
        false
    }

    fn len(&self) -> (r: usize) {
        assert(self.count() == self.0.count()
            + self.1.count()
            + self.2.count()
            + self.3.count()
            + self.4.count()
            + self.5.count()
            + self.6.count()
            + self.7.count()
            + self.8.count()
            + self.9.count()
            + self.10.count()
            + self.11.count()
            + self.12.count()
            + self.13.count()
            + self.14.count());
        let mut total = self.0.len();
        total = add_counts(total, self.1.len());
        total = add_counts(total, self.2.len());
        total = add_counts(total, self.3.len());
        total = add_counts(total, self.4.len());
        total = add_counts(total, self.5.len());
        total = add_counts(total, self.6.len());
        total = add_counts(total, self.7.len());
        total = add_counts(total, self.8.len());
        total = add_counts(total, self.9.len());
        total = add_counts(total, self.10.len());
        total = add_counts(total, self.11.len());
        total = add_counts(total, self.12.len());
        total = add_counts(total, self.13.len());
        total = add_counts(total, self.14.len());
        total
    }

    fn is_empty(&self) -> (r: bool) {
        false
    }

    fn add_classes(&self, classes: &mut ElementClasses) {
        self.0.add_classes(classes);
        self.1.add_classes(classes);
        self.2.add_classes(classes);
        self.3.add_classes(classes);
        self.4.add_classes(classes);
        self.5.add_classes(classes);
        self.6.add_classes(classes);
        self.7.add_classes(classes);
        self.8.add_classes(classes);
        self.9.add_classes(classes);
        self.10.add_classes(classes);
        self.11.add_classes(classes);
        self.12.add_classes(classes);
        self.13.add_classes(classes);
        self.14.add_classes(classes);
    }
}

impl<
    'a,
    A: ClassNames<'a>,
    B: ClassNames<'a>,
    C: ClassNames<'a>,
    D: ClassNames<'a>,
    E: ClassNames<'a>,
    F: ClassNames<'a>,
    G: ClassNames<'a>,
    H: ClassNames<'a>,
    I: ClassNames<'a>,
    J: ClassNames<'a>,
    K: ClassNames<'a>,
    L: ClassNames<'a>,
    M: ClassNames<'a>,
    N: ClassNames<'a>,
    O: ClassNames<'a>,
    P: ClassNames<'a>,
> ClassNames<'a> for (A, B, C, D, E, F, G, H, I, J, K, L, M, N, O, P) {
    open spec fn names(&self) -> Set<Seq<char>> {
        self.0.names()
            .union(self.1.names())
            .union(self.2.names())
            .union(self.3.names())
            .union(self.4.names())
            .union(self.5.names())
            .union(self.6.names())
            .union(self.7.names())
            .union(self.8.names())
            .union(self.9.names())
            .union(self.10.names())
            .union(self.11.names())
            .union(self.12.names())
            .union(self.13.names())
            .union(self.14.names())
            .union(self.15.names())
    }

    open spec fn count(&self) -> nat {
        self.0.count()
            + self.1.count()
            + self.2.count()
            + self.3.count()
            + self.4.count()
            + self.5.count()
            + self.6.count()
            + self.7.count()
            + self.8.count()
            + self.9.count()
            + self.10.count()
            + self.11.count()
            + self.12.count()
            + self.13.count()
            + self.14.count()
            + self.15.count()
    }

    open spec fn empty(&self) -> bool {
        false
    }

    fn len(&self) -> (r: usize) {
        assert(self.count() == self.0.count()
            + self.1.count()
            + self.2.count()
            + self.3.count()
            + self.4.count()
            + self.5.count()
            + self.6.count()
            + self.7.count()
            + self.8.count()
            + self.9.count()
            + self.10.count()
            + self.11.count()
            + self.12.count()
            + self.13.count()
            + self.14.count()
            + self.15.count());
        let mut total = self.0.len();
        total = add_counts(total, self.1.len());
        total = add_counts(total, self.2.len());
        total = add_counts(total, self.3.len());
        total = add_counts(total, self.4.len());
        total = add_counts(total, self.5.len());
        total = add_counts(total, self.6.len());
        total = add_counts(total, self.7.len());
        total = add_counts(total, self.8.len());
        total = add_counts(total, self.9.len());
        total = add_counts(total, self.10.len());
        total = add_counts(total, self.11.len());
        total = add_counts(total, self.12.len());
        total = add_counts(total, self.13.len());
        total = add_counts(total, self.14.len());
        total = add_counts(total, self.15.len());
        total
    }

    fn is_empty(&self) -> (r: bool) {
        false
    }

    fn add_classes(&self, classes: &mut ElementClasses) {
        self.0.add_classes(classes);
        self.1.add_classes(classes);
        self.2.add_classes(classes);
        self.3.add_classes(classes);
        self.4.add_classes(classes);
        self.5.add_classes(classes);
        self.6.add_classes(classes);
        self.7.add_classes(classes);
        self.8.add_classes(classes);
        self.9.add_classes(classes);
        self.10.add_classes(classes);
        self.11.add_classes(classes);
        self.12.add_classes(classes);
        self.13.add_classes(classes);
        self.14.add_classes(classes);
        self.15.add_classes(classes);
    }
}

impl ElementClasses {
    /// The class names of an element, from a tuple of class names.
    pub fn new<'a, C: ClassNames<'a>>(classes: C) -> (r: ElementClasses)
        ensures
            r@ == classes.names(),
    {
        classes.to_set()
    }
}

} // verus!
