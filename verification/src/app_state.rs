//! The demo application's widget state, as far as it is made of plain
//! values: the name field and the age counter that the GUI edits each
//! frame. The decorative gesture transform (zoom, rotation, translation)
//! is floating-point visual state and lives with the renderer, not here.

use vstd::prelude::*;
use vstd::string::StringExecFns;
use crate::text::{dec_digits, u64_to_decimal};

verus! {

/// The editable fields of the demo GUI.
pub struct AppState {
    pub name: String,
    pub age: u32,
}

impl AppState {
    /// The initial widget state the demo starts every surface with.
    pub fn new() -> (s: Self)
        ensures
            s.name@ == "Bob"@,
            s.age == 69,
    {
        AppState { name: "Bob".to_owned(), age: 69 }
    }

    /// One press of the increment button.
    pub fn increment_age(&mut self)
        requires
            old(self).age < u32::MAX,
        ensures
            final(self).age == old(self).age + 1,
            final(self).name == old(self).name,
    {
        self.age = self.age + 1;
    }

    /// The greeting label the GUI shows under the controls.
    pub fn greeting_line(&self) -> (s: String)
        ensures
            s@ == "Hello '"@ + self.name@ + "', age "@ + dec_digits(self.age as nat),
    {
        let mut s = "Hello '".to_owned();
        s.append(self.name.as_str());
        s.append("', age ");
        let num = u64_to_decimal(self.age as u64);
        s.append(num.as_str());
        proof {
            assert(s@ =~= "Hello '"@ + self.name@ + "', age "@ + dec_digits(self.age as nat));
        }
        s
    }
}

/// The canvas caption that reports how many fingers are on the screen.
pub fn touches_line(n: u64) -> (s: String)
    ensures
        s@ == "Current touches: "@ + dec_digits(n as nat),
{
    let mut s = "Current touches: ".to_owned();
    let num = u64_to_decimal(n);
    s.append(num.as_str());
    s
}

} // verus!
