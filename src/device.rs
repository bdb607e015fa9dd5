use vstd::prelude::*;
use vstd::string::StringExecFns;
use crate::config_space::CommonConfigSpaceInfo;
use crate::function::function_line;
use vstd::slice::slice_subrange;
use crate::address::Address;
use crate::function::{Function, ABSENT};

verus! {

#[verifier::external_type_specification]
#[verifier::external_body]
#[verifier::reject_recursive_types(T)]
pub struct ExBoundedVec<T, const N: usize>(heapless::Vec<T, N>);

/// The functions that a fixed-capacity vector of functions holds, in order.
pub uninterp spec fn functions_held(v: heapless::Vec<Function, 8>) -> Seq<Function>;

/// Relies on `heapless::Vec::new`: a new vector holds nothing.
#[verifier::external_body]
fn functions_new() -> (r: heapless::Vec<Function, 8>)
    ensures
        functions_held(r) == Seq::<Function>::empty(),
{
    heapless::Vec::new()
}

/// Relies on `heapless::Vec::push`: below capacity the item is appended and
/// `Ok` returned; at capacity the item is handed back and nothing changes.
#[verifier::external_body]
fn functions_push(v: &mut heapless::Vec<Function, 8>, f: Function) -> (r: Result<(), Function>)
    ensures
        r is Ok <==> functions_held(*old(v)).len() < 8,
        r is Ok ==> functions_held(*final(v)) == functions_held(*old(v)).push(f),
        r matches Err(x) ==> x == f,
        r is Err ==> functions_held(*final(v)) == functions_held(*old(v)),
{
    v.push(f)
}

/// Relies on `heapless::Vec::as_slice`: the held items, in order.
#[verifier::external_body]
fn functions_slice(v: &heapless::Vec<Function, 8>) -> (r: &[Function])
    ensures
        r@ == functions_held(*v),
{
    v.as_slice()
}

/// The addresses of the functions of `a`'s bus and slot, among function numbers
/// `0..n`, whose offset-0 word in `words` is not [`ABSENT`], ascending.
pub open spec fn present_functions(a: Address, words: Seq<u32>, n: nat) -> Seq<Address>
    decreases n,
{
    if n == 0 {
        Seq::empty()
    } else {
        let prev = present_functions(a, words, (n - 1) as nat);
        if words[n - 1] != ABSENT {
            prev.push(Address { bus: a.bus, slot: a.slot, function: (n - 1) as u8 })
        } else {
            prev
        }
    }
}

/// At most `n` functions are present among `0..n`; each lies on `a`'s bus and
/// slot with a function number below `n`, in ascending order; and where
/// function 0 answers, it comes first.
pub proof fn lemma_present_functions(a: Address, words: Seq<u32>, n: nat)
    requires
        n <= 8,
        a.wf(),
    ensures
        present_functions(a, words, n).len() <= n,
        forall|i: int|
            0 <= i < present_functions(a, words, n).len() ==> {
                let f = #[trigger] present_functions(a, words, n)[i];
                f.bus == a.bus && f.slot == a.slot && f.function < n && f.wf()
            },
        forall|i: int, j: int|
            0 <= i < j < present_functions(a, words, n).len() ==> (#[trigger] present_functions(
                a,
                words,
                n,
            )[i]).function < (#[trigger] present_functions(a, words, n)[j]).function,
        n >= 1 && words[0] != ABSENT ==> present_functions(a, words, n).len() >= 1
            && present_functions(a, words, n)[0] == (Address { bus: a.bus, slot: a.slot, function: 0 }),
    decreases n,
{
    if n > 0 {
        let m = (n - 1) as nat;
        lemma_present_functions(a, words, m);
        let prev = present_functions(a, words, m);
        let cur = present_functions(a, words, n);
        if words[n - 1] != ABSENT {
            assert(cur == prev.push(Address { bus: a.bus, slot: a.slot, function: m as u8 }));
            assert forall|i: int, j: int| 0 <= i < j < cur.len() implies (#[trigger] cur[i]).function
                < (#[trigger] cur[j]).function by {
                if j < prev.len() {
                    assert(cur[i] == prev[i] && cur[j] == prev[j]);
                } else {
                    assert(cur[i] == prev[i]);
                }
            }
            if n == 1 {
                assert(prev.len() == 0);
            }
        }
    }
}

/// The text of a device's first `n` functions, whose headers render as
/// `infos`: the main function's line, then one line for each additional
/// function, indented by two spaces.
pub open spec fn device_text(functions: Seq<Address>, infos: Seq<Seq<char>>, n: nat) -> Seq<char>
    decreases n,
{
    if n <= 1 {
        function_line(functions[0], infos[0])
    } else {
        device_text(functions, infos, (n - 1) as nat) + seq!['\n', ' ', ' '] + function_line(
            functions[n - 1],
            infos[n - 1],
        )
    }
}

/// A single device: the functions that answer at one bus and slot.
#[derive(Debug)]
pub struct Device {
    /// All functions of the device. Never empty: the main function is at
    /// index 0, the additional ones follow in ascending function number.
    functions: heapless::Vec<Function, 8>,
}

impl View for Device {
    type V = Seq<Address>;

    closed spec fn view(&self) -> Seq<Address> {
        functions_held(self.functions).map_values(|f: Function| f.spec_address())
    }
}

impl Device {
    #[verifier::type_invariant]
    closed spec fn inv(&self) -> bool {
        &&& self@.len() >= 1
        &&& self@[0].function == 0
        &&& forall|i: int| 0 <= i < self@.len() ==> (#[trigger] self@[i]).wf()
    }

    /// Builds the device at `address`'s bus and slot from the offset-0 words of
    /// its eight functions (`words[i]` for function `i`). There is no device
    /// where function 0 does not answer; otherwise the device holds function 0
    /// and every additional function that answers, ascending.
    pub fn discover(address: Address, words: &[u32; 8]) -> (r: Option<Device>)
        requires
            address.wf(),
            address.function == 0,
        ensures
            r is None <==> words@[0] == ABSENT,
            r matches Some(d) ==> d@ == present_functions(address, words@, 8),
    {
        let main_function = Function::discover(address, words[0]);
        let main_function = match main_function {
            Some(f) => f,
            None => {
                return None;
            },
        };
        let mut functions = functions_new();
        let _ = functions_push(&mut functions, main_function);
        assert(present_functions(address, words@, 0) =~= Seq::<Address>::empty());
        assert(functions_held(functions).map_values(|f: Function| f.spec_address())
            =~= present_functions(address, words@, 1));
        let mut function: u8 = 1;
        while function < 8
            invariant
                1 <= function <= 8,
                address.wf(),
                address.function == 0,
                functions_held(functions).map_values(|f: Function| f.spec_address())
                    == present_functions(address, words@, function as nat),
            decreases 8 - function,
        {
            proof {
                lemma_present_functions(address, words@, function as nat);
            }
            let a = Address { bus: address.bus, slot: address.slot, function };
            if let Some(f) = Function::discover(a, words[function as usize]) {
                let _ = functions_push(&mut functions, f);
            }
            function = function + 1;
            assert(functions_held(functions).map_values(|f: Function| f.spec_address())
                =~= present_functions(address, words@, function as nat));
        }
        proof {
            lemma_present_functions(address, words@, 8);
            let v = functions_held(functions).map_values(|f: Function| f.spec_address());
            assert forall|i: int| 0 <= i < v.len() implies (#[trigger] v[i]).wf() by {
                assert(v[i] == present_functions(address, words@, 8)[i]);
            }
        }
        Some(Device { functions })
    }

    /// Returns the main [`Function`] of the device.
    pub fn main_function(&self) -> (r: &Function)
        ensures
            r.spec_address() == self@[0],
            r.spec_address().function == 0,
    {
        proof {
            use_type_invariant(self);
        }
        let s = functions_slice(&self.functions);
        &s[0]
    }

    /// Returns the additional [`Function`]s of the device, if any.
    pub fn additional_functions(&self) -> (r: &[Function])
        ensures
            r@.map_values(|f: Function| f.spec_address()) == self@.subrange(1, self@.len() as int),
    {
        proof {
            use_type_invariant(self);
        }
        let s = functions_slice(&self.functions);
        let r = slice_subrange(s, 1, s.len());
        assert(r@.map_values(|f: Function| f.spec_address()) =~= self@.subrange(
            1,
            self@.len() as int,
        ));
        r
    }


    /// Renders the device, given `infos[i]`, the decoded header of its
    /// function at index `i`.
    pub fn to_string(&self, infos: &[CommonConfigSpaceInfo]) -> (r: String)
        requires
            infos@.len() == self@.len(),
        ensures
            r@ == device_text(
                self@,
                infos@.map_values(|c: CommonConfigSpaceInfo| c.text()),
                self@.len() as nat,
            ),
    {
        proof {
            use_type_invariant(self);
        }
        let ghost texts = infos@.map_values(|c: CommonConfigSpaceInfo| c.text());
        let functions = functions_slice(&self.functions);
        let mut r = functions[0].to_string(&infos[0]);
        let mut i: usize = 1;
        while i < functions.len()
            invariant
                1 <= i <= functions@.len(),
                functions@.len() == self@.len(),
                infos@.len() == self@.len(),
                texts == infos@.map_values(|c: CommonConfigSpaceInfo| c.text()),
                forall|j: int| 0 <= j < functions@.len() ==> (#[trigger] functions@[j]).spec_address() == self@[j],
                forall|j: int| 0 <= j < self@.len() ==> (#[trigger] self@[j]).wf(),
                r@ == device_text(self@, texts, i as nat),
            decreases functions@.len() - i,
        {
            proof {
                reveal_strlit("\n  ");
            }
            r.append("\n  ");
            let line = functions[i].to_string(&infos[i]);
            r.append(line.as_str());
            i = i + 1;
            assert(r@ =~= device_text(self@, texts, i as nat));
        }
        r
    }
}

} // verus!
