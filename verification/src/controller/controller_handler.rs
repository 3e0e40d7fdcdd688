use vstd::prelude::*;

verus! {

pub struct Controller {
    pub foo: i32,
}

impl Controller {
    pub fn new() -> (r: Controller)
        ensures
            r.foo == 0,
    {
        Controller { foo: 0 }
    }
}

pub fn nested_function() {
}

} // verus!
