use super::fhr::{valid_block, FixedHeapArray};
use vstd::pervasive::strictly_cloned;
use vstd::prelude::*;

verus! {

/// The product of the dimensions `dims`; 1 for no dimensions.
pub open spec fn product(dims: Seq<usize>) -> int
    decreases dims.len(),
{
    if dims.len() == 0 {
        1
    } else {
        product(dims.drop_last()) * dims.last()
    }
}

/// A zero anywhere among the dimensions makes their product zero, so a
/// tensor with a zero dimension is never constructed.
pub proof fn lemma_zero_dimension_rejected<T>(dims: Seq<usize>, j: int)
    requires
        0 <= j < dims.len(),
        dims[j] == 0,
    ensures
        product(dims) == 0,
        !valid_block::<T>(product(dims)),
    decreases dims.len(),
{
    if j < dims.len() - 1 {
        lemma_zero_dimension_rejected::<T>(dims.drop_last(), j);
    }
}

/// Whether multiplying the dimensions from the first to the last never
/// passes `usize::MAX`, at any step.
pub open spec fn product_fits(dims: Seq<usize>) -> bool {
    forall|k: int| 0 <= k <= dims.len() ==> #[trigger] product(dims.take(k)) <= usize::MAX
}

/// The product of `dims`, multiplied from the first dimension to the last,
/// or `None` as soon as a step overflows `usize`.
pub fn checked_product(dims: &[usize]) -> (r: Option<usize>)
    ensures
        r is Some <==> product_fits(dims@),
        r matches Some(p) ==> p == product(dims@),
{
    let mut size: usize = 1;
    let mut i: usize = 0;
    proof {
        assert(dims@.take(0) =~= Seq::<usize>::empty());
    }
    while i < dims.len()
        invariant
            i <= dims@.len(),
            size == product(dims@.take(i as int)),
            forall|k: int| 0 <= k <= i ==> #[trigger] product(dims@.take(k)) <= usize::MAX,
        decreases dims@.len() - i,
    {
        proof {
            assert(dims@.take(i + 1).drop_last() =~= dims@.take(i as int));
            assert(product(dims@.take(i + 1)) == size * dims@[i as int]);
        }
        match size.checked_mul(dims[i]) {
            Some(s) => {
                size = s;
            },
            None => {
                proof {
                    assert(!(product(dims@.take(i + 1)) <= usize::MAX));
                }
                return None;
            },
        }
        i = i + 1;
    }
    proof {
        assert(dims@.take(dims@.len() as int) =~= dims@);
    }
    Some(size)
}

/// A tensor with the dimensions `dims`, whose elements are stored in one
/// `FixedHeapArray` of the product of the dimensions.
pub struct Tensor<T> {
    data: FixedHeapArray<T>,
    dims: Vec<usize>,
}

impl<T> View for Tensor<T> {
    type V = Seq<T>;

    /// The elements, in storage order.
    closed spec fn view(&self) -> Seq<T> {
        self.data@
    }
}

impl<T> Tensor<T> {
    #[verifier::type_invariant]
    closed spec fn inv(self) -> bool {
        self.data@.len() == product(self.dims@)
    }

    /// The dimensions, in the order given at construction.
    pub closed spec fn shape(&self) -> Seq<usize> {
        self.dims@
    }

    /// The dimensions, in the order given at construction.
    pub fn dims(&self) -> (r: &[usize])
        ensures
            r@ == self.shape(),
    {
        self.dims.as_slice()
    }

    /// The total number of elements: the product of the dimensions.
    pub fn len(&self) -> (r: usize)
        ensures
            r == self@.len(),
            r == product(self.shape()),
    {
        proof {
            use_type_invariant(self);
        }
        self.data.len()
    }

    /// The storage that holds the elements.
    pub fn data(&self) -> (r: &FixedHeapArray<T>)
        ensures
            r@ == self@,
    {
        &self.data
    }
}

impl<T: Clone> Tensor<T> {
    /// Makes a tensor with the dimensions `dims`, every element a fresh clone
    /// of `default`.
    ///
    /// Returns `None` when multiplying the dimensions overflows `usize`, or
    /// when their product cannot be a `FixedHeapArray`: zero, or too many
    /// bytes.
    pub fn new(dims: Vec<usize>, default: T) -> (r: Option<Tensor<T>>)
        ensures
            r is Some <==> product_fits(dims@) && valid_block::<T>(product(dims@)),
            r matches Some(t) ==> {
                &&& t.shape() == dims@
                &&& t@.len() == product(dims@)
                &&& forall|i: int| 0 <= i < t@.len() ==> strictly_cloned(default, #[trigger] t@[i])
            },
    {
        let size = match checked_product(dims.as_slice()) {
            Some(s) => s,
            None => {
                return None;
            },
        };
        let data = match FixedHeapArray::new(size, default) {
            Some(d) => d,
            None => {
                return None;
            },
        };
        Some(Tensor { data, dims })
    }
}

} // verus!
