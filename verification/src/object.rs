use vstd::prelude::*;

verus! {

#[verifier::external_type_specification]
#[verifier::external_body]
pub struct ExElements(sgp4::Elements);

#[verifier::external_type_specification]
#[verifier::external_body]
pub struct ExConstants(sgp4::Constants);

#[verifier::external_type_specification]
#[verifier::external_body]
pub struct ExElementsError(sgp4::ElementsError);

/// Whether the sgp4 propagator accepts an element set: exactly the sets on
/// which `Constants::from_elements` succeeds. Acceptance is pure arithmetic
/// over the set's fields, so it depends on the set alone.
pub uninterp spec fn sgp4_accepts(elements: sgp4::Elements) -> bool;

/// The element set's UTC epoch read as milliseconds since the Unix epoch: a
/// fixed conversion of the set's timestamp field.
pub uninterp spec fn epoch_ms_of(elements: sgp4::Elements) -> i64;

/// The object name carried by the catalog record, if any.
pub uninterp spec fn name_of(elements: sgp4::Elements) -> Option<String>;

/// Relies on sgp4's Constants::from_elements: derives the propagation
/// constants for one catalog element set, and fails when the set cannot
/// support propagation (negative mean motion, eccentricity out of range).
/// The outcome is a deterministic function of the set's fields.
pub assume_specification[ sgp4::Constants::from_elements ](
    elements: &sgp4::Elements,
) -> (r: core::result::Result<sgp4::Constants, sgp4::ElementsError>)
    ensures
        r is Ok <==> sgp4_accepts(*elements),
;

/// Relies on chrono's NaiveDateTime::and_utc and DateTime::timestamp_millis:
/// reads the element set's UTC epoch as milliseconds since the Unix epoch.
#[verifier::external_body]
fn elements_epoch_ms(elements: &sgp4::Elements) -> (r: i64)
    ensures
        r == epoch_ms_of(*elements),
{
    elements.datetime.and_utc().timestamp_millis()
}

/// Relies on sgp4's Elements type: hands out a copy of the record's
/// object name.
#[verifier::external_body]
fn elements_object_name(elements: &sgp4::Elements) -> (r: Option<String>)
    ensures
        r == name_of(*elements),
{
    elements.object_name.clone()
}

/// Per-object failure: the element set cannot support propagation. The
/// object is excluded from the roster; nothing else is affected.
#[derive(Clone, Copy, Debug, PartialEq, Eq, Structural)]
pub struct InvalidElements;

/// A satellite object: one catalog element set together with the propagation
/// constants derived from it at construction time. Created when a group's
/// fetched elements are materialized; replaced wholesale when the group's
/// roster is refreshed.
pub struct Object {
    epoch_ms: i64,
    elements: sgp4::Elements,
    constants: sgp4::Constants,
}

impl Object {
    /// The catalog element set this object was built from.
    pub closed spec fn spec_elements(&self) -> sgp4::Elements {
        self.elements
    }

    /// The element set's epoch, in milliseconds since the Unix epoch.
    pub closed spec fn spec_epoch_ms(&self) -> i64 {
        self.epoch_ms
    }

    /// Creates a new `Object` from catalog elements: succeeds exactly on
    /// the sets the propagator accepts, storing the set and the epoch read
    /// from it. Returns `InvalidElements` otherwise; that failure is
    /// per-object and recoverable.
    pub fn from_elements(elements: sgp4::Elements) -> (r: Result<Object, InvalidElements>)
        ensures
            r is Ok <==> sgp4_accepts(elements),
            r matches Ok(o) ==> (o.spec_elements() == elements && o.spec_epoch_ms()
                == epoch_ms_of(elements)),
    {
        let epoch_ms = elements_epoch_ms(&elements);
        match sgp4::Constants::from_elements(&elements) {
            Ok(constants) => Ok(Object { epoch_ms, elements, constants }),
            Err(_) => Err(InvalidElements),
        }
    }

    /// Returns the name of the object, when the catalog record carries one.
    pub fn name(&self) -> (r: Option<String>)
        ensures
            r == name_of(self.spec_elements()),
    {
        elements_object_name(&self.elements)
    }

    /// Returns the epoch of the elements, in milliseconds since the Unix
    /// epoch.
    pub fn epoch_ms(&self) -> (t: i64)
        ensures
            t == self.spec_epoch_ms(),
    {
        self.epoch_ms
    }

    /// Returns the catalog elements of the object.
    pub fn elements(&self) -> (r: &sgp4::Elements)
        ensures
            *r == self.spec_elements(),
    {
        &self.elements
    }

    /// Returns the propagation constants derived at construction.
    pub fn constants(&self) -> &sgp4::Constants {
        &self.constants
    }
}

/// The element sets behind a roster, in roster order.
pub open spec fn roster_elements(objects: Seq<Object>) -> Seq<sgp4::Elements> {
    objects.map_values(|o: Object| o.spec_elements())
}

/// The subsequence of element sets that the propagator accepts, in order.
pub open spec fn accepted_elements(elements: Seq<sgp4::Elements>) -> Seq<sgp4::Elements> {
    elements.filter(|e: sgp4::Elements| sgp4_accepts(e))
}

/// Materializes a list of fetched element sets into objects: exactly the
/// sets the propagator accepts, in order, each carried by its object; the
/// rejected sets are dropped and nothing else appears.
pub fn materialize_objects(elements: Vec<sgp4::Elements>) -> (objects: Vec<Object>)
    ensures
        objects.len() <= elements.len(),
        roster_elements(objects@) == accepted_elements(elements@),
{
    let ghost all = elements@;
    let mut remaining = elements;
    let mut objects: Vec<Object> = Vec::new();
    let ghost k: int = 0;
    proof {
        reveal(Seq::filter);
        assert(all.take(0) =~= Seq::<sgp4::Elements>::empty());
        assert(roster_elements(objects@) =~= Seq::<sgp4::Elements>::empty());
        assert(accepted_elements(all.take(0)) =~= Seq::<sgp4::Elements>::empty());
    }
    while remaining.len() > 0
        invariant
            remaining@ =~= all.skip(k),
            0 <= k <= all.len(),
            objects.len() <= k,
            roster_elements(objects@) == accepted_elements(all.take(k)),
        decreases remaining.len(),
    {
        let ghost objects_before = objects@;
        let next = remaining.remove(0);
        proof {
            assert(next == all[k]);
        }
        match Object::from_elements(next) {
            Ok(object) => {
                objects.push(object);
                proof {
                    assert(roster_elements(objects@) =~= roster_elements(objects_before).push(
                        object.spec_elements(),
                    ));
                }
            },
            Err(_) => (),
        }
        proof {
            reveal(Seq::filter);
            let taken = all.take(k + 1);
            assert(taken.drop_last() =~= all.take(k));
            assert(taken.last() == all[k]);
            assert(accepted_elements(taken) == if sgp4_accepts(all[k]) {
                accepted_elements(all.take(k)).push(all[k])
            } else {
                accepted_elements(all.take(k))
            });
            k = k + 1;
            assert(remaining@ =~= all.skip(k));
        }
    }
    proof {
        assert(all.take(all.len() as int) =~= all);
    }
    objects
}

} // verus!
