//! A moving average: a window of values and their running total.

use std::collections::VecDeque;
use vstd::prelude::*;
use vstd::std_specs::convert::FromSpec;
use vstd::std_specs::ops::{AddSpec, DivSpec, SubSpec};

verus! {

/// A window of values with their running total. The numbers may be of any
/// type that adds, subtracts and divides and that takes an `i32`; what the
/// total is said to be holds for types whose operators obey their
/// specifications.
#[derive(Debug)]
pub struct MovAvg<T> {
    total: T,
    vals: VecDeque<T>,
}

impl<T: std::ops::Add<Output = T> + std::ops::Sub<Output = T> + std::ops::Div<
    Output = T,
> + std::convert::From<i32> + std::marker::Copy> MovAvg<T> {
    /// The values in the window, the oldest first.
    pub closed spec fn window(self) -> Seq<T> {
        self.vals@
    }

    /// The running total.
    pub closed spec fn total(self) -> T {
        self.total
    }

    /// An empty window with a total of zero.
    pub fn new() -> (avg: MovAvg<T>)
        ensures
            avg.window() == Seq::<T>::empty(),
            T::obeys_from_spec() ==> avg.total() == T::from_spec(0i32),
    {
        MovAvg { total: T::from(0i32), vals: VecDeque::new() }
    }

    /// The running total.
    pub fn sum(&self) -> (sum: T)
        ensures
            sum == self.total(),
    {
        self.total
    }

    /// The oldest value in the window, if there is one.
    pub fn oldest(&self) -> (oldest: Option<T>)
        ensures
            self.window().len() == 0 ==> oldest.is_none(),
            self.window().len() > 0 ==> oldest == Some(self.window()[0]),
    {
        if self.vals.len() > 0 {
            Some(self.vals[0])
        } else {
            None
        }
    }

    /// The number of values in the window.
    pub fn len(&self) -> (len: usize)
        ensures
            len == self.window().len(),
    {
        self.vals.len()
    }

    /// Puts `n` zeros into the window. The total stays as it is.
    pub fn init(&mut self, n: usize)
        ensures
            final(self).total() == old(self).total(),
            final(self).window().len() == old(self).window().len() + n,
            final(self).window().subrange(0, old(self).window().len() as int) == old(
                self).window(),
            T::obeys_from_spec() ==> forall|i: int|
                old(self).window().len() <= i < final(self).window().len() ==> final(
                    self).window()[i] == T::from_spec(0i32),
    {
        let mut i: usize = 0;
        while i < n
            invariant
                0 <= i <= n,
                self.total() == old(self).total(),
                self.window().len() == old(self).window().len() + i,
                self.window().subrange(0, old(self).window().len() as int) == old(self).window(),
                T::obeys_from_spec() ==> forall|j: int|
                    old(self).window().len() <= j < self.window().len() ==> self.window()[j]
                        == T::from_spec(0i32),
            decreases n - i,
        {
            self.vals.push_back(T::from(0i32));
            i += 1;
        }
    }

    /// Puts `val` into the window and adds it to the total.
    pub fn add(&mut self, val: T)
        requires
            old(self).total().add_req(val),
        ensures
            final(self).window() == old(self).window().push(val),
            T::obeys_add_spec() ==> final(self).total() == old(self).total().add_spec(val),
    {
        self.vals.push_back(val);
        self.total = self.total + val;
    }

    /// Takes the oldest value out of the window and off the total. An empty
    /// window stays as it is.
    pub fn drop(&mut self)
        requires
            old(self).window().len() > 0 ==> old(self).total().sub_req(old(self).window()[0]),
        ensures
            old(self).window().len() == 0 ==> final(self).window() == old(self).window()
                && final(self).total() == old(self).total(),
            old(self).window().len() > 0 ==> final(self).window() == old(self).window().subrange(
                1,
                old(self).window().len() as int,
            ),
            old(self).window().len() > 0 && T::obeys_sub_spec() ==> final(self).total() == old(
                self).total().sub_spec(old(self).window()[0]),
    {
        if let Some(val) = self.vals.pop_front() {
            self.total = self.total - val;
        }
    }

    /// The total divided by the number of values in the window.
    pub fn avg(&self) -> (mean: T)
        requires
            T::obeys_from_spec(),
            self.total().div_req(T::from_spec(self.window().len() as i32)),
        ensures
            T::obeys_div_spec() ==> mean == self.total().div_spec(
                T::from_spec(self.window().len() as i32),
            ),
    {
        self.total / T::from(self.vals.len() as i32)
    }
}

} // verus!
