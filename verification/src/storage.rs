//! Storage for decoded scan data.
//!
//! Decoded echoes, layers and modules live in inline-buffered vectors of an
//! outside collection crate, and a module's measurement grid is reordered
//! through an outside two-dimensional array. Verus sees each of these
//! collections only through a name for its contents and a few wrappers whose
//! contracts state what the collection crate's source shows.

use vstd::prelude::*;

use crate::compact::{Echo, Measurement, MeasurementLayerOutput, MeasurementModule};

verus! {

/// Inline-buffered storage for the echoes of one beam.
#[verifier::external_body]
pub struct EchoVec {
    items: smallvec::SmallVec<[Echo; 3]>,
}

/// The echoes an [`EchoVec`] holds, in order.
pub uninterp spec fn echo_items(v: EchoVec) -> Seq<Echo>;

/// Relies on SmallVec::new: a freshly created vector is empty.
#[verifier::external_body]
pub(crate) fn echoes_new() -> (r: EchoVec)
    ensures
        echo_items(r) == Seq::<Echo>::empty(),
{
    EchoVec { items: smallvec::SmallVec::new() }
}

/// Relies on SmallVec::push: appends one element at the back.
#[verifier::external_body]
pub(crate) fn echoes_push(v: &mut EchoVec, e: Echo)
    ensures
        echo_items(*final(v)) == echo_items(*old(v)).push(e),
{
    v.items.push(e)
}

/// Relies on SmallVec::as_slice: hands the stored elements out in order.
#[verifier::external_body]
fn echoes_slice_vec(v: &EchoVec) -> (r: Vec<Echo>)
    ensures
        r@ == echo_items(*v),
{
    v.items.as_slice().to_vec()
}

impl EchoVec {
    /// The stored echoes, in order, as a plain vector.
    pub fn to_vec(&self) -> (r: Vec<Echo>)
        ensures
            r@ == echo_items(*self),
    {
        echoes_slice_vec(self)
    }
}

impl Clone for EchoVec {
    /// Relies on SmallVec::clone: the copy holds the same elements.
    #[verifier::external_body]
    fn clone(&self) -> (r: Self)
        ensures
            echo_items(r) == echo_items(*self),
    {
        EchoVec { items: self.items.clone() }
    }
}

/// Inline-buffered storage for the layers of one module.
#[verifier::external_body]
pub struct LayerVec {
    items: smallvec::SmallVec<[MeasurementLayerOutput; 16]>,
}

/// The layers a [`LayerVec`] holds, in order.
pub uninterp spec fn layer_items(v: LayerVec) -> Seq<MeasurementLayerOutput>;

/// Relies on SmallVec::new: a freshly created vector is empty.
#[verifier::external_body]
pub(crate) fn layers_new() -> (r: LayerVec)
    ensures
        layer_items(r) == Seq::<MeasurementLayerOutput>::empty(),
{
    LayerVec { items: smallvec::SmallVec::new() }
}

/// Relies on SmallVec::push: appends one element at the back.
#[verifier::external_body]
pub(crate) fn layers_push(v: &mut LayerVec, e: MeasurementLayerOutput)
    ensures
        layer_items(*final(v)) == layer_items(*old(v)).push(e),
{
    v.items.push(e)
}

/// Relies on SmallVec::into_vec: hands the stored elements out in order.
#[verifier::external_body]
fn layers_slice_vec(v: LayerVec) -> (r: Vec<MeasurementLayerOutput>)
    ensures
        r@ == layer_items(v),
{
    v.items.into_vec()
}

impl LayerVec {
    /// The stored layers, in order, as a plain vector.
    pub fn to_vec(self) -> (r: Vec<MeasurementLayerOutput>)
        ensures
            r@ == layer_items(self),
    {
        layers_slice_vec(self)
    }
}

impl Clone for LayerVec {
    /// Relies on SmallVec::clone: the copy holds the same elements.
    #[verifier::external_body]
    fn clone(&self) -> (r: Self)
        ensures
            layer_items(r) == layer_items(*self),
    {
        LayerVec { items: self.items.clone() }
    }
}

/// Inline-buffered storage for the modules of one telegram.
#[verifier::external_body]
pub struct ModuleVec {
    items: smallvec::SmallVec<[MeasurementModule; 4]>,
}

/// The modules a [`ModuleVec`] holds, in order.
pub uninterp spec fn module_items(v: ModuleVec) -> Seq<MeasurementModule>;

/// Relies on SmallVec::new: a freshly created vector is empty.
#[verifier::external_body]
pub(crate) fn modules_new() -> (r: ModuleVec)
    ensures
        module_items(r) == Seq::<MeasurementModule>::empty(),
{
    ModuleVec { items: smallvec::SmallVec::new() }
}

/// Relies on SmallVec::push: appends one element at the back.
#[verifier::external_body]
pub(crate) fn modules_push(v: &mut ModuleVec, e: MeasurementModule)
    ensures
        module_items(*final(v)) == module_items(*old(v)).push(e),
{
    v.items.push(e)
}

/// Relies on SmallVec::into_vec: hands the stored elements out in order.
#[verifier::external_body]
fn modules_slice_vec(v: ModuleVec) -> (r: Vec<MeasurementModule>)
    ensures
        r@ == module_items(v),
{
    v.items.into_vec()
}

impl ModuleVec {
    /// The stored modules, in order, as a plain vector.
    pub fn to_vec(self) -> (r: Vec<MeasurementModule>)
        ensures
            r@ == module_items(self),
    {
        modules_slice_vec(self)
    }
}

#[verifier::external_type_specification]
#[verifier::external_body]
#[verifier::reject_recursive_types(T)]
pub struct ExArray2D<T>(array2d::Array2D<T>);

/// The cells of a measurement grid, row by row.
pub uninterp spec fn grid_view(a: array2d::Array2D<Measurement>) -> Seq<Seq<Measurement>>;

/// Relies on Array2D::filled_with: a rows-by-cols grid with every cell the
/// given element.
#[verifier::external_body]
pub(crate) fn grid_filled(element: Measurement, rows: usize, cols: usize) -> (r: array2d::Array2D<
    Measurement,
>)
    requires
        rows * cols <= usize::MAX,
    ensures
        grid_view(r) == Seq::new(rows as nat, |j: int| Seq::new(cols as nat, |i: int| element)),
{
    array2d::Array2D::filled_with(element, rows, cols)
}

/// Relies on Array2D::set: replaces one cell, leaving every other cell and
/// the grid's shape unchanged.
#[verifier::external_body]
pub(crate) fn grid_set(a: &mut array2d::Array2D<Measurement>, row: usize, col: usize, v: Measurement)
    requires
        row < grid_view(*old(a)).len(),
        col < grid_view(*old(a))[row as int].len(),
    ensures
        grid_view(*final(a)) == grid_view(*old(a)).update(
            row as int,
            grid_view(*old(a))[row as int].update(col as int, v),
        ),
{
    let _ = a.set(row, col, v);
}

/// Relies on Array2D::as_rows: hands the grid out row by row; the clones it
/// takes preserve every field.
#[verifier::external_body]
pub(crate) fn grid_as_rows(a: &array2d::Array2D<Measurement>) -> (r: Vec<Vec<Measurement>>)
    ensures
        r@.len() == grid_view(*a).len(),
        forall|j: int| 0 <= j < r@.len() ==> #[trigger] r@[j]@ == grid_view(*a)[j],
{
    a.as_rows()
}

} // verus!
