use vstd::prelude::*;

verus! {

/// A grid layer of an imported level: its name and cell geometry.
pub struct LayerInstance {
    pub identifier: String,
    /// Grid width in cells.
    pub c_wid: i32,
    /// Grid height in cells.
    pub c_hei: i32,
    /// World size of one cell.
    pub grid_size: i32,
}

/// A typed field value attached to an imported entity.
pub enum FieldValue {
    /// An enumeration field, possibly left unset by the author.
    EnumVal(Option<String>),
    /// A list of references to other entities by their stable identifier;
    /// unset slots are `None`.
    EntityRefs(Vec<Option<String>>),
}

/// One named field of an imported entity.
pub struct FieldInstance {
    pub identifier: String,
    pub value: FieldValue,
}

/// An imported entity record: its stable identifier and its fields.
pub struct EntityInstance {
    pub iid: String,
    pub field_instances: Vec<FieldInstance>,
}

/// A fatal level-authoring error, reported when a level is loaded and never
/// retried.
#[derive(Debug, Clone, Copy, PartialEq, Eq, Structural)]
pub enum AuthoringError {
    /// A required layer is absent from the level.
    MissingLayer,
    /// A required entity field is absent.
    MissingField,
    /// A field holds a value of the wrong type, or an unset or unknown value.
    WrongFieldType,
    /// An entity reference does not resolve to any entity in the level.
    UnresolvedReference,
}

/// The value of the first field named `name`, if any.
pub open spec fn find_field(fields: Seq<FieldInstance>, name: Seq<char>) -> Option<FieldValue>
    decreases fields.len(),
{
    if fields.len() == 0 {
        None
    } else if fields[0].identifier@ == name {
        Some(fields[0].value)
    } else {
        find_field(fields.skip(1), name)
    }
}

/// A field list whose first `k` entries are not named `name` finds the same
/// field as its remainder.
proof fn lemma_find_field_skip(fields: Seq<FieldInstance>, name: Seq<char>, k: int)
    requires
        0 <= k <= fields.len(),
        forall|j: int| 0 <= j < k ==> (#[trigger] fields[j]).identifier@ != name,
    ensures
        find_field(fields, name) == find_field(fields.skip(k), name),
    decreases k,
{
    if k > 0 {
        assert(fields[0].identifier@ != name);
        lemma_find_field_skip(fields.skip(1), name, k - 1);
        assert(fields.skip(1).skip(k - 1) =~= fields.skip(k));
    } else {
        assert(fields.skip(0) =~= fields);
    }
}

/// Look a field up by name: the first field so named, if any.
pub fn lookup_field<'a>(fields: &'a Vec<FieldInstance>, name: &String) -> (r: Option<
    &'a FieldInstance,
>)
    ensures
        match r {
            Some(f) => find_field(fields@, name@) == Some(f.value) && f.identifier@ == name@,
            None => find_field(fields@, name@) is None,
        },
{
    let mut i: usize = 0;
    while i < fields.len()
        invariant
            0 <= i <= fields@.len(),
            forall|j: int| 0 <= j < i ==> (#[trigger] fields@[j]).identifier@ != name@,
        decreases fields@.len() - i,
    {
        if fields[i].identifier == *name {
            proof {
                lemma_find_field_skip(fields@, name@, i as int);
                assert(fields@.skip(i as int)[0] == fields@[i as int]);
            }
            return Some(&fields[i]);
        }
        i = i + 1;
    }
    proof {
        lemma_find_field_skip(fields@, name@, fields@.len() as int);
    }
    None
}

/// The index of the first layer named `name`, if any.
pub fn find_layer(layers: &Vec<LayerInstance>, name: &String) -> (r: Option<usize>)
    ensures
        match r {
            Some(i) => {
                &&& i < layers@.len()
                &&& layers@[i as int].identifier@ == name@
                &&& forall|j: int| 0 <= j < i ==> (#[trigger] layers@[j]).identifier@ != name@
            },
            None => forall|j: int|
                0 <= j < layers@.len() ==> (#[trigger] layers@[j]).identifier@ != name@,
        },
{
    let mut i: usize = 0;
    while i < layers.len()
        invariant
            0 <= i <= layers@.len(),
            forall|j: int| 0 <= j < i ==> (#[trigger] layers@[j]).identifier@ != name@,
        decreases layers@.len() - i,
    {
        if layers[i].identifier == *name {
            return Some(i);
        }
        i = i + 1;
    }
    None
}

} // verus!
