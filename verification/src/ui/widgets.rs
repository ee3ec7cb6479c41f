//! Text shown next to fields: their labels and what an address points into.

use vstd::prelude::*;

use super::definition_file::{fields_view, name_view, DefinitionFile, Field};
use super::definition_file::grammar::FieldV;
use crate::text::{hex_lower, hex_upper, decimal, push_char, push_decimal, push_hex_lower, push_hex_upper, push_str};

verus! {

/// The label of a field: its name, or its base offset as `0x...` (the bits
/// of the offset read as unsigned).
pub open spec fn spec_label(f: Field) -> Seq<char> {
    match name_view(f.name) {
        Some(n) => n,
        None => hex_lower(f.position.base as usize as nat),
    }
}

impl Field {
    pub fn label(&self) -> (r: String)
        ensures
            r@ == spec_label(*self),
    {
        match &self.name {
            Some(n) => n.clone(),
            None => {
                let mut s = String::new();
                push_hex_lower(&mut s, self.position.base as usize as u64);
                s
            },
        }
    }
}

impl Field {
    /// Whether the field starts inside a structure of `parent_size` bytes,
    /// which must hold before the field is read from one.
    pub fn starts_within(&self, parent_size: usize) -> (r: bool)
        ensures
            r == (0 <= self.position.base < parent_size),
    {
        self.position.base >= 0 && (self.position.base as usize) < parent_size
    }
}

/// A game array: `count` elements of `elem_size` bytes starting at `base`.
#[derive(Debug, Copy, Clone)]
pub struct ArrayRegion {
    pub name: &'static str,
    pub base: usize,
    pub elem_size: usize,
    pub count: usize,
}

pub open spec fn region_ok(a: ArrayRegion) -> bool {
    a.elem_size > 0 && a.elem_size * a.count <= usize::MAX
}

/// Index and byte offset of the element that `ptr` points into, if it points into the array.
pub open spec fn spec_child(a: ArrayRegion, ptr: usize) -> Option<(usize, usize)> {
    if a.base <= ptr && ptr - a.base < a.elem_size * a.count {
        Some((((ptr - a.base) / a.elem_size as int) as usize, ((ptr - a.base) % a.elem_size as int) as usize))
    } else {
        None
    }
}

impl ArrayRegion {
    /// Which element `ptr` points into, and how far into it.
    pub fn check_for_child(&self, ptr: usize) -> (r: Option<(usize, usize)>)
        requires
            region_ok(*self),
        ensures
            r == spec_child(*self, ptr),
    {
        if ptr < self.base {
            return None;
        }
        let offset = ptr - self.base;
        if offset >= self.elem_size * self.count {
            return None;
        }
        Some((offset / self.elem_size, offset % self.elem_size))
    }
}

/// The element index and byte offset found for a pointer into an array
/// locate it exactly: the element is in the array, the offset is inside
/// the element, and base + index * size + offset is the pointer.
pub proof fn lemma_child_locates(a: ArrayRegion, ptr: usize)
    requires
        region_ok(a),
        spec_child(a, ptr) is Some,
    ensures
        ({
            let (i, o) = spec_child(a, ptr)->0;
            &&& i < a.count
            &&& o < a.elem_size
            &&& a.base + i * a.elem_size + o == ptr
        }),
{
    let off = ptr - a.base;
    let e = a.elem_size as int;
    assert(off == (off / e) * e + off % e && 0 <= off % e < e) by (nonlinear_arith)
        requires
            e > 0,
            off >= 0,
    ;
    assert(off / e < a.count) by (nonlinear_arith)
        requires
            e > 0,
            off >= 0,
            off < e * a.count,
    ;
}

/// The first array (from `k` on) that `ptr` points into, with the element and offset.
pub open spec fn first_child(arrays: Seq<ArrayRegion>, ptr: usize, k: int) -> Option<(int, usize, usize)>
    decreases arrays.len() - k,
{
    if k < 0 || k >= arrays.len() {
        None
    } else {
        match spec_child(arrays[k], ptr) {
            Some((i, o)) => Some((k, i, o)),
            None => first_child(arrays, ptr, k + 1),
        }
    }
}

/// How an address is described next to a pointer field of a structure at
/// `parent` of `parent_size` bytes: `NULL`; `self + 0x..` inside the
/// structure; `NAME[i] + 0x..` inside one of the game's arrays; `DLL + 0x..`
/// (upper-case digits) from the DLL's base on; otherwise the address itself.
pub open spec fn spec_identify_addr(
    parent: usize,
    parent_size: usize,
    ptr: usize,
    arrays: Seq<ArrayRegion>,
    dll_base: usize,
) -> Seq<char> {
    if ptr == 0 {
        "NULL"@
    } else if parent <= ptr && ptr - parent < parent_size {
        "self + "@ + hex_lower((ptr - parent) as nat)
    } else {
        match first_child(arrays, ptr, 0) {
            Some((k, i, o)) => arrays[k].name@ + "["@ + decimal(i as nat) + "] + "@ + hex_lower(
                o as nat,
            ),
            None => if dll_base <= ptr {
                "DLL + "@ + hex_upper((ptr - dll_base) as nat)
            } else {
                hex_lower(ptr as nat)
            },
        }
    }
}

/// `ptr` lies inside array `a`.
pub open spec fn points_into(a: ArrayRegion, ptr: usize) -> bool {
    a.base <= ptr && ptr - a.base < a.elem_size * a.count
}

proof fn lemma_first_child_at(arrays: Seq<ArrayRegion>, ptr: usize, j: int, k: int)
    requires
        0 <= j <= k < arrays.len(),
        points_into(arrays[k], ptr),
        forall|m: int| 0 <= m < k ==> !points_into(#[trigger] arrays[m], ptr),
    ensures
        first_child(arrays, ptr, j) == Some(
            (
                k,
                ((ptr - arrays[k].base) / arrays[k].elem_size as int) as usize,
                ((ptr - arrays[k].base) % arrays[k].elem_size as int) as usize,
            ),
        ),
    decreases k - j,
{
    if j < k {
        assert(!points_into(arrays[j], ptr));
        lemma_first_child_at(arrays, ptr, j + 1, k);
    }
}

proof fn lemma_first_child_none(arrays: Seq<ArrayRegion>, ptr: usize, j: int)
    requires
        0 <= j <= arrays.len(),
        forall|m: int| 0 <= m < arrays.len() ==> !points_into(#[trigger] arrays[m], ptr),
    ensures
        first_child(arrays, ptr, j) is None,
    decreases arrays.len() - j,
{
    if j < arrays.len() {
        assert(!points_into(arrays[j], ptr));
        lemma_first_child_none(arrays, ptr, j + 1);
    }
}

/// A pointer (not null, not into the structure itself) into one of the
/// game's arrays is named after the first array it points into, with the
/// element's index and the offset into the element, wherever the DLL's base
/// lies: `NAME[index] + 0x..`, even for arrays inside the DLL.
pub proof fn lemma_array_pointer_named(
    parent: usize,
    parent_size: usize,
    ptr: usize,
    arrays: Seq<ArrayRegion>,
    dll_base: usize,
    k: int,
)
    requires
        ptr != 0,
        !(parent <= ptr && ptr - parent < parent_size),
        0 <= k < arrays.len(),
        arrays[k].elem_size > 0,
        arrays[k].base <= ptr,
        ptr - arrays[k].base < arrays[k].elem_size * arrays[k].count,
        forall|m: int|
            0 <= m < k ==> !(#[trigger] arrays[m].base <= ptr && ptr - arrays[m].base
                < arrays[m].elem_size * arrays[m].count),
    ensures
        spec_identify_addr(parent, parent_size, ptr, arrays, dll_base) == arrays[k].name@ + "["@
            + decimal(((ptr - arrays[k].base) / arrays[k].elem_size as int) as nat) + "] + "@
            + hex_lower(((ptr - arrays[k].base) % arrays[k].elem_size as int) as nat),
{
    assert forall|m: int| 0 <= m < k implies !points_into(#[trigger] arrays[m], ptr) by {
        assert(!(arrays[m].base <= ptr && ptr - arrays[m].base < arrays[m].elem_size
            * arrays[m].count));
    }
    lemma_first_child_at(arrays, ptr, 0, k);
    let off = ptr - arrays[k].base;
    let e = arrays[k].elem_size as int;
    assert(0 <= off / e <= off && 0 <= off % e < e) by (nonlinear_arith)
        requires
            e > 0,
            off >= 0,
    ;
}

/// A pointer that is not null, not into the structure itself and into none of
/// the arrays is shown as its offset from the DLL's base in upper-case
/// hexadecimal, `DLL + 0x..`, when it lies at or above that base, and as the
/// bare address otherwise.
pub proof fn lemma_other_pointer_shown(
    parent: usize,
    parent_size: usize,
    ptr: usize,
    arrays: Seq<ArrayRegion>,
    dll_base: usize,
)
    requires
        ptr != 0,
        !(parent <= ptr && ptr - parent < parent_size),
        forall|m: int|
            0 <= m < arrays.len() ==> !(#[trigger] arrays[m].base <= ptr && ptr - arrays[m].base
                < arrays[m].elem_size * arrays[m].count),
    ensures
        dll_base <= ptr ==> spec_identify_addr(parent, parent_size, ptr, arrays, dll_base)
            == "DLL + "@ + hex_upper((ptr - dll_base) as nat),
        ptr < dll_base ==> spec_identify_addr(parent, parent_size, ptr, arrays, dll_base)
            == hex_lower(ptr as nat),
{
    assert forall|m: int| 0 <= m < arrays.len() implies !points_into(#[trigger] arrays[m], ptr) by {
        assert(!(arrays[m].base <= ptr && ptr - arrays[m].base < arrays[m].elem_size
            * arrays[m].count));
    }
    lemma_first_child_none(arrays, ptr, 0);
}

pub fn identify_addr(
    parent: usize,
    parent_size: usize,
    ptr: usize,
    arrays: &[ArrayRegion],
    dll_base: usize,
) -> (r: String)
    requires
        forall|k: int| 0 <= k < arrays@.len() ==> region_ok(#[trigger] arrays@[k]),
    ensures
        r@ == spec_identify_addr(parent, parent_size, ptr, arrays@, dll_base),
{
    let mut s = String::new();
    if ptr == 0 {
        push_str(&mut s, "NULL");
        return s;
    }
    if ptr >= parent && ptr - parent < parent_size {
        push_str(&mut s, "self + ");
        push_hex_lower(&mut s, (ptr - parent) as u64);
        return s;
    }
    let mut k: usize = 0;
    while k < arrays.len()
        invariant
            k <= arrays@.len(),
            forall|j: int| 0 <= j < arrays@.len() ==> region_ok(#[trigger] arrays@[j]),
            first_child(arrays@, ptr, 0) == first_child(arrays@, ptr, k as int),
            s@ == Seq::<char>::empty(),
            ptr != 0,
            !(parent <= ptr && ptr - parent < parent_size),
        decreases arrays@.len() - k,
    {
        match arrays[k].check_for_child(ptr) {
            Some((index, offset)) => {
                push_str(&mut s, arrays[k].name);
                push_str(&mut s, "[");
                push_decimal(&mut s, index as u128);
                push_str(&mut s, "] + ");
                push_hex_lower(&mut s, offset as u64);
                assert(s@ =~= spec_identify_addr(parent, parent_size, ptr, arrays@, dll_base));
                return s;
            },
            None => {},
        }
        k = k + 1;
    }
    if ptr >= dll_base {
        push_str(&mut s, "DLL + ");
        push_hex_upper(&mut s, (ptr - dll_base) as u64);
    } else {
        push_hex_lower(&mut s, ptr as u64);
    }
    s
}

/// The game structures that the research UI shows, each described by its
/// own section of the definition file.
#[derive(Debug, Copy, Clone, PartialEq, Eq)]
pub enum Section {
    Katamari,
    Prince,
    Camera,
    Thing,
}

/// The fields of a definition file that describe one structure.
pub open spec fn section_fields(defs: DefinitionFile, which: Section) -> Seq<FieldV> {
    match which {
        Section::Katamari => defs@.katamari,
        Section::Prince => defs@.prince,
        Section::Camera => defs@.camera,
        Section::Thing => defs@.thing,
    }
}

impl DefinitionFile {
    /// The fields that describe the structure `which`, in file order.
    pub fn section(&self, which: Section) -> (r: &[Field])
        ensures
            fields_view(r@) == section_fields(*self, which),
            which == Section::Katamari ==> r@ == self.katamari@,
            which == Section::Prince ==> r@ == self.prince@,
            which == Section::Camera ==> r@ == self.camera@,
            which == Section::Thing ==> r@ == self.thing@,
    {
        match which {
            Section::Katamari => self.katamari.as_slice(),
            Section::Prince => self.prince.as_slice(),
            Section::Camera => self.camera.as_slice(),
            Section::Thing => self.thing.as_slice(),
        }
    }
}

/// A structure paired with the definitions that say how to show it.
pub struct WithDefinitions<'a, T>(pub T, pub &'a DefinitionFile);

impl<'a, T> WithDefinitions<'a, T> {
    pub fn new(target: T, defs: &'a DefinitionFile) -> (r: Self)
        ensures
            r.0 == target,
            r.1 == defs,
    {
        WithDefinitions(target, defs)
    }

    /// The definitions the structure is shown with.
    pub fn definitions(&self) -> (r: &'a DefinitionFile)
        ensures
            r == self.1,
    {
        self.1
    }
}

} // verus!
