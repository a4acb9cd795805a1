//! A muffler as an ordered chain of acoustic elements between a source and a
//! load.
use crate::ring::twice;
use crate::sample::{ExactSample, Sample};
use crate::transfer_matrix::{
    lemma_cascade_reciprocal, lemma_identity_denominator, Complex, TransferMatrix,
};
use vstd::prelude::*;

verus! {

/// An acoustic element: anything that has a transfer matrix at a given
/// angular frequency `omega` (rad/s), speed of sound `c` (m/s) and air
/// density `rho` (kg/m^3).
///
/// The matrix is the implementor's statement about its own geometry. What
/// this library proves about a chain holds for whatever matrices the elements
/// report.
pub trait AcousticElement<S: Sample>: Send + Sync {
    /// The element's transfer matrix.
    spec fn matrix_at(&self, omega: S, c: S, rho: S) -> TransferMatrix<S>;

    /// Computes the element's transfer matrix.
    fn transfer_matrix(&self, omega: S, c: S, rho: S) -> (t: TransferMatrix<S>)
        ensures
            t == self.matrix_at(omega, c, rho),
    ;
}

/// An ordered chain of acoustic elements, from the source side to the load
/// side, with the characteristic impedances that terminate it.
#[verifier::reject_recursive_types(S)]
pub struct Muffler<S: Sample> {
    elements: Vec<Box<dyn AcousticElement<S>>>,
    z_source: S,
    z_load: S,
}

impl<S: Sample> Muffler<S> {
    /// The elements of the chain, in their physical order.
    pub closed spec fn elements(&self) -> Seq<Box<dyn AcousticElement<S>>> {
        self.elements@
    }

    /// Characteristic impedance of the inlet (source side).
    pub closed spec fn source_impedance(&self) -> S {
        self.z_source
    }

    /// Characteristic impedance of the outlet (load side).
    pub closed spec fn load_impedance(&self) -> S {
        self.z_load
    }

    /// The matrices that the elements report, in their physical order.
    pub open spec fn matrices_at(&self, omega: S, c: S, rho: S) -> Seq<TransferMatrix<S>> {
        Seq::new(self.elements().len(), |i: int| self.elements()[i].matrix_at(omega, c, rho))
    }

    /// The transfer denominator of the whole chain at one frequency, between
    /// the source impedance and a load whose reciprocal impedance is
    /// `y_load`.
    pub open spec fn denominator_at(&self, omega: S, c: S, rho: S, y_load: S) -> Complex<S> {
        TransferMatrix::cascade_of(self.matrices_at(omega, c, rho)).transfer_denominator_value(
            self.source_impedance(),
            y_load,
        )
    }

    /// A muffler from a list of elements and the two impedances.
    pub fn new(elements: Vec<Box<dyn AcousticElement<S>>>, z_source: S, z_load: S) -> (m: Self)
        ensures
            m.elements() == elements@,
            m.source_impedance() == z_source,
            m.load_impedance() == z_load,
    {
        Muffler { elements, z_source, z_load }
    }

    /// Characteristic impedance of the inlet (source side).
    pub fn z_source(&self) -> (z: S)
        ensures
            z == self.source_impedance(),
    {
        self.z_source
    }

    /// Characteristic impedance of the outlet (load side).
    pub fn z_load(&self) -> (z: S)
        ensures
            z == self.load_impedance(),
    {
        self.z_load
    }

    /// How many elements the chain has.
    pub fn len(&self) -> (n: usize)
        ensures
            n == self.elements().len(),
    {
        self.elements.len()
    }

    /// The transfer matrix of the whole chain: the product of the elements'
    /// matrices from the source-facing element to the load-facing one, the
    /// identity if there is no element.
    pub fn total_transfer_matrix(&self, omega: S, c: S, rho: S) -> (total: TransferMatrix<S>)
        ensures
            total == TransferMatrix::cascade_of(self.matrices_at(omega, c, rho)),
    {
        let ghost all = self.matrices_at(omega, c, rho);
        let mut total = TransferMatrix::identity();
        let mut i: usize = 0;
        while i < self.elements.len()
            invariant
                i <= self.elements.len(),
                all == self.matrices_at(omega, c, rho),
                total == TransferMatrix::cascade_of(all.take(i as int)),
            decreases self.elements.len() - i,
        {
            let t = self.elements[i].transfer_matrix(omega, c, rho);
            total = total.chain(&t);
            i += 1;
            assert(all.take(i as int).drop_last() =~= all.take(i - 1));
        }
        assert(all.take(i as int) =~= all);
        total
    }

    /// Composes the chain at angular frequency `omega` and computes
    /// `a + b/z_load + z_source c + z_source d/z_load` of its matrix, the
    /// quantity that both the transmission loss and the pressure transfer
    /// function are taken from. `y_load` is the reciprocal of the load
    /// impedance.
    pub fn transfer_denominator(&self, omega: S, c: S, rho: S, y_load: S) -> (den: Complex<S>)
        ensures
            den == self.denominator_at(omega, c, rho, y_load),
    {
        let total = self.total_transfer_matrix(omega, c, rho);
        total.transfer_denominator(self.z_source, y_load)
    }
}

/// A muffler of reciprocal elements is reciprocal. In exact arithmetic, if
/// each element reports a matrix of determinant one, the matrix of the whole
/// chain has determinant one.
pub proof fn lemma_muffler_reciprocal<S: ExactSample>(muffler: Muffler<S>, omega: S, c: S, rho: S)
    requires
        forall|i: int|
            0 <= i < muffler.elements().len() ==> (#[trigger] muffler.elements()[i]).matrix_at(
                omega,
                c,
                rho,
            ).determinant() == Complex::<S>::one_value(),
    ensures
        TransferMatrix::cascade_of(muffler.matrices_at(omega, c, rho)).determinant()
            == Complex::<S>::one_value(),
{
    lemma_cascade_reciprocal(muffler.matrices_at(omega, c, rho));
}

/// A muffler without elements is transparent. In exact arithmetic, between
/// a source of impedance `z` and a load of the same impedance (`y_load` its
/// reciprocal), the transfer denominator of an empty chain is two at every
/// frequency: no loss, and a pressure transfer of one.
pub proof fn lemma_empty_muffler_is_transparent<S: ExactSample>(
    muffler: Muffler<S>,
    omega: S,
    c: S,
    rho: S,
    y_load: S,
)
    requires
        muffler.elements().len() == 0,
        S::product(muffler.source_impedance(), y_load) == S::one_value(),
    ensures
        muffler.denominator_at(omega, c, rho, y_load) == Complex::<S>::real_value(
            twice(S::one_value()),
        ),
{
    assert(muffler.matrices_at(omega, c, rho) =~= Seq::<TransferMatrix<S>>::empty());
    lemma_identity_denominator(muffler.source_impedance(), y_load);
}

} // verus!
