use vstd::prelude::*;

verus! {

/// The position of a swapchain image, as the swapchain hands it out.
#[derive(Clone, Copy, Debug, PartialEq, Eq, Structural)]
pub struct SwapchainObjectIndex {
    index: usize,
}

impl SwapchainObjectIndex {
    pub fn new(index: usize) -> (r: SwapchainObjectIndex)
        ensures
            r == SwapchainObjectIndex::at(index),
            r.index() == index,
    {
        SwapchainObjectIndex { index }
    }

    pub closed spec fn index(self) -> usize {
        self.index
    }

    pub closed spec fn at(index: usize) -> SwapchainObjectIndex {
        SwapchainObjectIndex { index }
    }

    pub fn get(&self) -> (r: usize)
        ensures
            r == self.index(),
    {
        self.index
    }
}

/// One object per swapchain image.
pub struct SwapchainObjects<T> {
    objects: Vec<T>,
}

impl<T> View for SwapchainObjects<T> {
    type V = Seq<T>;

    closed spec fn view(&self) -> Seq<T> {
        self.objects@
    }
}

impl<T> SwapchainObjects<T> {
    /// The objects that `constructor` makes for each of `count` images, in order.
    pub fn new<F: Fn(&SwapchainObjectIndex) -> T>(count: usize, constructor: F) -> (r:
        SwapchainObjects<T>)
        requires
            forall|i: usize| i < count ==> constructor.requires((&SwapchainObjectIndex::at(i),)),
        ensures
            r@.len() == count,
            forall|i: int|
                0 <= i < count ==> constructor.ensures(
                    (&SwapchainObjectIndex::at(i as usize),),
                    #[trigger] r@[i],
                ),
    {
        let mut objects: Vec<T> = Vec::new();
        let mut i: usize = 0;
        while i < count
            invariant
                i <= count,
                objects@.len() == i,
                forall|i: usize| i < count ==> constructor.requires((&SwapchainObjectIndex::at(i),)),
                forall|j: int|
                    0 <= j < i ==> constructor.ensures(
                        (&SwapchainObjectIndex::at(j as usize),),
                        #[trigger] objects@[j],
                    ),
            decreases count - i,
        {
            let index = SwapchainObjectIndex { index: i };
            assert(index == SwapchainObjectIndex::at(i));
            let object = constructor(&index);
            objects.push(object);
            i += 1;
        }
        SwapchainObjects { objects }
    }

    pub fn len(&self) -> (r: usize)
        ensures
            r == self@.len(),
    {
        self.objects.len()
    }

    pub fn get(&self, index: &SwapchainObjectIndex) -> (r: &T)
        requires
            index.index() < self@.len(),
        ensures
            *r == self@[index.index() as int],
    {
        &self.objects[index.index]
    }

    pub fn get_mut(&mut self, index: &SwapchainObjectIndex) -> (r: &mut T)
        requires
            index.index() < old(self)@.len(),
        ensures
            *r == old(self)@[index.index() as int],
            final(self)@ == old(self)@.update(index.index() as int, *final(r)),
    {
        &mut self.objects[index.index]
    }

    pub fn iter(&self) -> (r: core::slice::Iter<'_, T>)
        ensures
            vstd::std_specs::slice::into_iter_elts(r) == self@,
    {
        self.objects.as_slice().iter()
    }

    pub fn into_vec(self) -> (r: Vec<T>)
        ensures
            r@ == self@,
    {
        self.objects
    }

    /// The objects that `f` makes of these, in order.
    pub fn map<U, F: Fn(&T) -> U>(&self, f: F) -> (r: SwapchainObjects<U>)
        requires
            forall|i: int| 0 <= i < self@.len() ==> f.requires((&#[trigger] self@[i],)),
        ensures
            r@.len() == self@.len(),
            forall|i: int| 0 <= i < self@.len() ==> f.ensures((&self@[i],), #[trigger] r@[i]),
    {
        assert(self.objects@ == self@);
        SwapchainObjects { objects: map_items(&self.objects, f) }
    }

    /// The objects that `f` makes of these, which it consumes, in order.
    pub fn into_map<U, F: Fn(T) -> U>(self, f: F) -> (r: SwapchainObjects<U>)
        requires
            forall|i: int| 0 <= i < self@.len() ==> f.requires((#[trigger] self@[i],)),
        ensures
            r@.len() == self@.len(),
            forall|i: int| 0 <= i < self@.len() ==> f.ensures((self@[i],), #[trigger] r@[i]),
    {
        assert(self.objects@ == self@);
        SwapchainObjects { objects: into_map_items(self.objects, f) }
    }
}

/// One object per frame in flight, used in turn as the swapchain cycles.
pub struct SwapchainCycle<T> {
    objects: Vec<T>,
}

impl<T> View for SwapchainCycle<T> {
    type V = Seq<T>;

    closed spec fn view(&self) -> Seq<T> {
        self.objects@
    }
}

/// The frame before frame `cycle` of a cycle of `count` frames.
pub open spec fn previous_frame(cycle: int, count: int) -> int {
    (cycle + count - 1) % count
}

proof fn lemma_previous_frame(cycle: int, count: int)
    requires
        0 <= cycle < count,
    ensures
        previous_frame(cycle, count) == if cycle == 0 {
            count - 1
        } else {
            cycle - 1
        },
{
    if cycle == 0 {
        vstd::arithmetic::div_mod::lemma_small_mod((count - 1) as nat, count as nat);
    } else {
        vstd::arithmetic::div_mod::lemma_mod_add_multiples_vanish(cycle - 1, count);
        vstd::arithmetic::div_mod::lemma_small_mod((cycle - 1) as nat, count as nat);
    }
}

impl<T> SwapchainCycle<T> {
    /// `count` objects that `constructor` makes one after another.
    pub fn new<F: Fn() -> T>(count: usize, constructor: F) -> (r: SwapchainCycle<T>)
        requires
            constructor.requires(()),
        ensures
            r@.len() == count,
            forall|i: int| 0 <= i < count ==> constructor.ensures((), #[trigger] r@[i]),
    {
        let mut objects: Vec<T> = Vec::new();
        let mut i: usize = 0;
        while i < count
            invariant
                i <= count,
                objects@.len() == i,
                constructor.requires(()),
                forall|j: int| 0 <= j < i ==> constructor.ensures((), #[trigger] objects@[j]),
            decreases count - i,
        {
            objects.push(constructor());
            i += 1;
        }
        SwapchainCycle { objects }
    }

    pub fn len(&self) -> (r: usize)
        ensures
            r == self@.len(),
    {
        self.objects.len()
    }

    /// The object of frame `cycle`.
    pub fn get(&self, cycle: usize) -> (r: &T)
        requires
            cycle < self@.len(),
        ensures
            *r == self@[cycle as int],
    {
        &self.objects[cycle]
    }

    pub fn get_mut(&mut self, cycle: usize) -> (r: &mut T)
        requires
            cycle < old(self)@.len(),
        ensures
            *r == old(self)@[cycle as int],
            final(self)@ == old(self)@.update(cycle as int, *final(r)),
    {
        &mut self.objects[cycle]
    }

    /// The object of the frame before frame `cycle`; the first frame follows the last.
    pub fn get_previous(&self, cycle: usize) -> (r: &T)
        requires
            cycle < self@.len(),
        ensures
            *r == self@[previous_frame(cycle as int, self@.len() as int)],
    {
        let count = self.objects.len();
        let previous = if cycle == 0 {
            count - 1
        } else {
            cycle - 1
        };
        proof {
            lemma_previous_frame(cycle as int, count as int);
        }
        &self.objects[previous]
    }

    pub fn get_previous_mut(&mut self, cycle: usize) -> (r: &mut T)
        requires
            cycle < old(self)@.len(),
        ensures
            *r == old(self)@[previous_frame(cycle as int, old(self)@.len() as int)],
            final(self)@ == old(self)@.update(
                previous_frame(cycle as int, old(self)@.len() as int),
                *final(r),
            ),
    {
        let count = self.objects.len();
        let previous = if cycle == 0 {
            count - 1
        } else {
            cycle - 1
        };
        proof {
            lemma_previous_frame(cycle as int, count as int);
        }
        &mut self.objects[previous]
    }

    pub fn iter(&self) -> (r: core::slice::Iter<'_, T>)
        ensures
            vstd::std_specs::slice::into_iter_elts(r) == self@,
    {
        self.objects.as_slice().iter()
    }

    /// The objects that `f` makes of these, in order.
    pub fn map<U, F: Fn(&T) -> U>(&self, f: F) -> (r: SwapchainCycle<U>)
        requires
            forall|i: int| 0 <= i < self@.len() ==> f.requires((&#[trigger] self@[i],)),
        ensures
            r@.len() == self@.len(),
            forall|i: int| 0 <= i < self@.len() ==> f.ensures((&self@[i],), #[trigger] r@[i]),
    {
        assert(self.objects@ == self@);
        SwapchainCycle { objects: map_items(&self.objects, f) }
    }

    /// The objects that `f` makes of these, which it consumes, in order.
    pub fn into_map<U, F: Fn(T) -> U>(self, f: F) -> (r: SwapchainCycle<U>)
        requires
            forall|i: int| 0 <= i < self@.len() ==> f.requires((#[trigger] self@[i],)),
        ensures
            r@.len() == self@.len(),
            forall|i: int| 0 <= i < self@.len() ==> f.ensures((self@[i],), #[trigger] r@[i]),
    {
        assert(self.objects@ == self@);
        SwapchainCycle { objects: into_map_items(self.objects, f) }
    }
}

/// The objects that `f` makes of the items, in order.
fn map_items<T, U, F: Fn(&T) -> U>(items: &Vec<T>, f: F) -> (r: Vec<U>)
    requires
        forall|i: int| 0 <= i < items@.len() ==> f.requires((&#[trigger] items@[i],)),
    ensures
        r@.len() == items@.len(),
        forall|i: int| 0 <= i < items@.len() ==> f.ensures((&items@[i],), #[trigger] r@[i]),
{
    let mut out: Vec<U> = Vec::new();
    let mut i: usize = 0;
    while i < items.len()
        invariant
            i <= items@.len(),
            out@.len() == i,
            forall|i: int| 0 <= i < items@.len() ==> f.requires((&#[trigger] items@[i],)),
            forall|j: int| 0 <= j < i ==> f.ensures((&items@[j],), #[trigger] out@[j]),
        decreases items@.len() - i,
    {
        out.push(f(&items[i]));
        i += 1;
    }
    out
}

/// The objects that `f` makes of the items, which it consumes, in order.
fn into_map_items<T, U, F: Fn(T) -> U>(items: Vec<T>, f: F) -> (r: Vec<U>)
    requires
        forall|i: int| 0 <= i < items@.len() ==> f.requires((#[trigger] items@[i],)),
    ensures
        r@.len() == items@.len(),
        forall|i: int| 0 <= i < items@.len() ==> f.ensures((items@[i],), #[trigger] r@[i]),
{
    let ghost all = items@;
    let mut items = items;
    let mut stack: Vec<T> = Vec::new();
    while items.len() > 0
        invariant
            items@.len() + stack@.len() == all.len(),
            forall|j: int| 0 <= j < items@.len() ==> #[trigger] items@[j] == all[j],
            forall|j: int| 0 <= j < stack@.len() ==> #[trigger] stack@[j] == all[all.len() - 1 - j],
        decreases items@.len(),
    {
        let item = items.pop().unwrap();
        stack.push(item);
    }
    let mut out: Vec<U> = Vec::new();
    while stack.len() > 0
        invariant
            stack@.len() + out@.len() == all.len(),
            forall|j: int| 0 <= j < stack@.len() ==> #[trigger] stack@[j] == all[all.len() - 1 - j],
            forall|i: int| 0 <= i < all.len() ==> f.requires((#[trigger] all[i],)),
            forall|j: int| 0 <= j < out@.len() ==> f.ensures((all[j],), #[trigger] out@[j]),
        decreases stack@.len(),
    {
        let item = stack.pop().unwrap();
        assert(item == all[out@.len() as int]);
        out.push(f(item));
    }
    out
}

} // verus!
