//! Customer returns, as a report lists them.
use vstd::prelude::*;

verus! {

/// A row of a customer returns report.
#[derive(Debug)]
pub struct CustomerReturn {
    pub return_date: String,
    pub order_id: String,
    pub msku: String,
    pub asin: String,
    pub fnsku: String,
    pub description: String,
    pub units: u32,
    pub fc_id: String,
    pub disposition: String,
    pub reason: String,
    pub status: String,
    pub lpn: String,
    pub customer_comments: Option<String>,
}

/// An item of a [`ReturnsBucket`]: one customer return.
#[derive(Debug)]
pub struct ReturnsBucketIter(pub CustomerReturn);

/// A container of customer returns, in the order in which they were put in.
#[derive(Debug)]
pub struct ReturnsBucket {
    vec: Vec<ReturnsBucketIter>,
}

impl View for ReturnsBucket {
    type V = Seq<ReturnsBucketIter>;

    closed spec fn view(&self) -> Seq<ReturnsBucketIter> {
        self.vec@
    }
}

impl Default for ReturnsBucket {
    /// A bucket without returns.
    fn default() -> (r: Self)
        ensures
            r@ == Seq::<ReturnsBucketIter>::empty(),
    {
        ReturnsBucket { vec: Vec::new() }
    }
}

impl ReturnsBucket {
    /// The bucket of the given returns, in their order.
    pub fn new(vec: Vec<ReturnsBucketIter>) -> (r: Self)
        ensures
            r@ == vec@,
    {
        ReturnsBucket { vec }
    }

    /// Puts a return into the bucket, behind those that are there.
    pub fn push(&mut self, rb: ReturnsBucketIter)
        ensures
            final(self)@ == old(self)@.push(rb),
    {
        self.vec.push(rb)
    }

    /// The number of returns in the bucket.
    pub fn len(&self) -> (r: usize)
        ensures
            r == self@.len(),
    {
        self.vec.len()
    }

    /// The return at the given place, counting from 0; `None` behind the
    /// last.
    pub fn get(&self, i: usize) -> (r: Option<&ReturnsBucketIter>)
        ensures
            match r {
                Some(item) => i < self@.len() && *item == self@[i as int],
                None => i >= self@.len(),
            },
    {
        if i < self.vec.len() {
            Some(&self.vec[i])
        } else {
            None
        }
    }
}

} // verus!
