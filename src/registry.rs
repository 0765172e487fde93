//! The registry of declared functions and the state of each one.
use vstd::prelude::*;
use crate::ir::IrError;

verus! {

/// Everything that can abort a compilation.
#[derive(Clone, Copy, PartialEq, Eq, Structural, Debug)]
pub enum JitError {
    /// The host instruction set cannot be targeted.
    UnsupportedHost,
    /// A signature without parameters or without a return value.
    EmptySignature,
    /// An edge into a block that was already sealed.
    UnsealedPredecessor,
    /// A block left unsealed or without a terminator.
    IncompleteFunction,
    /// A second declaration under a name already in the module.
    DuplicateSymbol,
    /// The code generator refused the function.
    BackendFailure,
    /// Executable memory could not be obtained or made executable.
    OutOfExecutableMemory,
}

impl JitError {
    /// The compilation error that an IR builder error aborts with.
    pub fn from_ir(e: IrError) -> (r: JitError)
        ensures
            r == match e {
                IrError::EmptySignature => JitError::EmptySignature,
                IrError::UnsealedPredecessor => JitError::UnsealedPredecessor,
                IrError::IncompleteFunction => JitError::IncompleteFunction,
            },
    {
        match e {
            IrError::EmptySignature => JitError::EmptySignature,
            IrError::UnsealedPredecessor => JitError::UnsealedPredecessor,
            IrError::IncompleteFunction => JitError::IncompleteFunction,
        }
    }
}

/// Where a declared function stands. Only a finalized one has an address.
#[derive(Clone, Copy, PartialEq, Eq, Structural, Debug)]
pub enum FunctionState {
    Declared,
    Defined,
    Finalized { address: usize },
}

/// One declared function.
#[derive(Debug)]
pub struct Symbol {
    pub name: String,
    pub state: FunctionState,
}

/// The declared functions of one module, in order of declaration.
pub struct SymbolTable {
    pub symbols: Vec<Symbol>,
}

impl SymbolTable {
    /// No name is declared twice.
    pub open spec fn inv(&self) -> bool {
        forall|a: int, b: int|
            0 <= a < b < self.symbols@.len() ==> (#[trigger] self.symbols@[a]).name@
                != (#[trigger] self.symbols@[b]).name@
    }

    pub open spec fn declared(&self, name: Seq<char>) -> bool {
        exists|k: int| 0 <= k < self.symbols@.len() && (#[trigger] self.symbols@[k]).name@ == name
    }

    /// Every function finalized in `self` is finalized in `t`, at the same
    /// index, under the same name and at the same address.
    pub open spec fn finalized_kept(&self, t: SymbolTable) -> bool {
        &&& self.symbols@.len() <= t.symbols@.len()
        &&& forall|k: int|
            0 <= k < self.symbols@.len() && (#[trigger] self.symbols@[k]).state is Finalized
                ==> t.symbols@[k].name@ == self.symbols@[k].name@ && t.symbols@[k].state
                == self.symbols@[k].state
    }

    pub fn new() -> (r: SymbolTable)
        ensures
            r.inv(),
            r.symbols@.len() == 0,
    {
        SymbolTable { symbols: Vec::new() }
    }

    /// The index of the function declared under `name`, if any.
    pub fn lookup(&self, name: &String) -> (r: Option<usize>)
        requires
            self.inv(),
        ensures
            r is None <==> !self.declared(name@),
            r matches Some(k) ==> k < self.symbols@.len() && self.symbols@[k as int].name@ == name@,
    {
        let mut k: usize = 0;
        while k < self.symbols.len()
            invariant
                k <= self.symbols@.len(),
                forall|m: int| 0 <= m < k ==> (#[trigger] self.symbols@[m]).name@ != name@,
            decreases self.symbols@.len() - k,
        {
            if self.symbols[k].name == *name {
                return Some(k);
            }
            k = k + 1;
        }
        None
    }

    /// Declares a function under `name`; fails if the name is taken, and then
    /// changes nothing.
    pub fn declare(&mut self, name: String) -> (r: Result<usize, JitError>)
        requires
            old(self).inv(),
        ensures
            final(self).inv(),
            old(self).declared(name@) <==> r is Err,
            r is Err ==> r == Err::<usize, JitError>(JitError::DuplicateSymbol) && final(self).symbols@
                == old(self).symbols@,
            r matches Ok(k) ==> k == old(self).symbols@.len() && final(self).symbols@.len() == k + 1
                && final(self).symbols@[k as int].name@ == name@ && final(self).symbols@[k as int].state
                == FunctionState::Declared && final(self).symbols@.subrange(0, k as int)
                == old(self).symbols@,
            old(self).finalized_kept(*final(self)),
    {
        match self.lookup(&name) {
            Some(_) => Err(JitError::DuplicateSymbol),
            None => {
                let k = self.symbols.len();
                self.symbols.push(Symbol { name, state: FunctionState::Declared });
                assert(self.symbols@.subrange(0, k as int) =~= old(self).symbols@);
                Ok(k)
            },
        }
    }

    /// Records that code for the declared function `k` has been emitted.
    pub fn mark_defined(&mut self, k: usize)
        requires
            old(self).inv(),
            k < old(self).symbols@.len(),
            old(self).symbols@[k as int].state == FunctionState::Declared,
        ensures
            final(self).inv(),
            final(self).symbols@ == old(self).symbols@.update(
                k as int,
                Symbol { name: old(self).symbols@[k as int].name, state: FunctionState::Defined },
            ),
            old(self).finalized_kept(*final(self)),
    {
        let name = self.symbols[k].name.clone();
        self.symbols.set(k, Symbol { name, state: FunctionState::Defined });
    }

    /// Records that the defined function `k` now lives at `address` in
    /// executable memory.
    pub fn mark_finalized(&mut self, k: usize, address: usize)
        requires
            old(self).inv(),
            k < old(self).symbols@.len(),
            old(self).symbols@[k as int].state == FunctionState::Defined,
        ensures
            final(self).inv(),
            final(self).symbols@ == old(self).symbols@.update(
                k as int,
                Symbol {
                    name: old(self).symbols@[k as int].name,
                    state: FunctionState::Finalized { address },
                },
            ),
            old(self).finalized_kept(*final(self)),
    {
        let name = self.symbols[k].name.clone();
        self.symbols.set(k, Symbol { name, state: FunctionState::Finalized { address } });
    }

    /// The address of function `k`, only once it is finalized.
    pub fn finalized_address(&self, k: usize) -> (r: Option<usize>)
        ensures
            r is Some <==> k < self.symbols@.len() && self.symbols@[k as int].state is Finalized,
            r matches Some(a) ==> self.symbols@[k as int].state == (FunctionState::Finalized {
                address: a,
            }),
    {
        if k < self.symbols.len() {
            match self.symbols[k].state {
                FunctionState::Finalized { address } => Some(address),
                _ => None,
            }
        } else {
            None
        }
    }
}

/// The length of the longest name in `symbols`.
pub open spec fn max_name_len(symbols: Seq<Symbol>) -> nat
    decreases symbols.len(),
{
    if symbols.len() == 0 {
        0
    } else {
        let rest = max_name_len(symbols.drop_last());
        let last = symbols.last().name@.len();
        if last > rest {
            last
        } else {
            rest
        }
    }
}

/// No name in `symbols` is longer than `max_name_len`.
pub proof fn lemma_max_name_len(symbols: Seq<Symbol>, k: int)
    requires
        0 <= k < symbols.len(),
    ensures
        symbols[k].name@.len() <= max_name_len(symbols),
    decreases symbols.len(),
{
    if k < symbols.len() - 1 {
        lemma_max_name_len(symbols.drop_last(), k);
        assert(symbols.drop_last()[k] == symbols[k]);
    }
}

/// Relies on `String::push`: appends `c` to `s`.
#[verifier::external_body]
fn push_char(s: &mut String, c: char)
    ensures
        final(s)@ == old(s)@.push(c),
{
    s.push(c)
}

/// The decimal digit for `d`, which is below ten.
fn digit_char(d: usize) -> (r: char)
    requires
        d < 10,
    ensures
        '0' <= r <= '9',
{
    match d {
        0 => '0',
        1 => '1',
        2 => '2',
        3 => '3',
        4 => '4',
        5 => '5',
        6 => '6',
        7 => '7',
        8 => '8',
        _ => '9',
    }
}

/// Appends the decimal digits of `n` to `s`.
fn push_decimal(s: &mut String, n: usize)
    ensures
        final(s)@.len() > old(s)@.len(),
        final(s)@.subrange(0, old(s)@.len() as int) == old(s)@,
{
    let mut digits: Vec<char> = Vec::new();
    digits.push(digit_char(n % 10));
    let mut m = n / 10;
    while m > 0
        invariant
            digits@.len() > 0,
        decreases m,
    {
        digits.push(digit_char(m % 10));
        m = m / 10;
    }
    let ghost start = s@;
    let mut k = digits.len();
    while k > 0
        invariant
            k <= digits@.len(),
            s@.len() == start.len() + (digits@.len() - k),
            s@.subrange(0, start.len() as int) == start,
        decreases k,
    {
        k = k - 1;
        let ghost before = s@;
        push_char(s, digits[k]);
        assert(s@.subrange(0, start.len() as int) =~= before.subrange(0, start.len() as int));
    }
}

impl SymbolTable {
    /// A name not yet declared: `base`, an underscore and the number of
    /// functions declared so far, followed by as many underscores as it
    /// takes to be unused.
    pub fn fresh_name(&self, base: &str) -> (r: String)
        requires
            self.inv(),
        ensures
            !self.declared(r@),
            r@.len() > base@.len() + 1,
            r@.subrange(0, base@.len() + 1 as int) == base@.push('_'),
    {
        let mut name = base.to_owned();
        push_char(&mut name, '_');
        let ghost head = name@;
        push_decimal(&mut name, self.symbols.len());
        let ghost bound = max_name_len(self.symbols@);
        while self.lookup(&name).is_some()
            invariant
                self.inv(),
                bound == max_name_len(self.symbols@),
                head == base@.push('_'),
                name@.len() > head.len(),
                name@.subrange(0, head.len() as int) == head,
            decreases bound + 1 - name@.len(),
        {
            proof {
                let k = choose|k: int| 0 <= k < self.symbols@.len() && (#[trigger] self.symbols@[k]).name@ == name@;
                lemma_max_name_len(self.symbols@, k);
            }
            let ghost before = name@;
            push_char(&mut name, '_');
            assert(name@.subrange(0, head.len() as int) =~= before.subrange(0, head.len() as int));
        }
        name
    }
}

} // verus!
