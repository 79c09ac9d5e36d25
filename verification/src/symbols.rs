//! The symbols that lowering has handed out so far.

use vstd::hash_map::StringHashMap;
use vstd::prelude::*;

verus! {

/// Which symbol stands for each key.
pub struct SymbolMap {
    map: StringHashMap<String>,
}

impl View for SymbolMap {
    type V = Map<Seq<char>, Seq<char>>;

    closed spec fn view(&self) -> Map<Seq<char>, Seq<char>> {
        self.map@.map_values(|s: String| s@)
    }
}

/// Device globals by global key.
pub type DeviceGlobalsMap = SymbolMap;

impl SymbolMap {
    /// The empty map.
    pub fn new() -> (r: Self)
        ensures
            r@ == Map::<Seq<char>, Seq<char>>::empty(),
    {
        let r = SymbolMap { map: StringHashMap::new() };
        assert(r@ =~= Map::<Seq<char>, Seq<char>>::empty());
        r
    }

    /// The symbol for `key`.
    pub fn get(&self, key: &str) -> (r: Option<String>)
        ensures
            match r {
                Some(s) => self@.contains_key(key@) && s@ == self@[key@],
                None => !self@.contains_key(key@),
            },
    {
        match self.map.get(key) {
            Some(s) => Some(s.clone()),
            None => None,
        }
    }

    /// Whether there is a symbol for `key`.
    pub fn contains_key(&self, key: &str) -> (r: bool)
        ensures
            r == self@.contains_key(key@),
    {
        self.map.contains_key(key)
    }

    /// Lets `symbol` stand for `key` from now on.
    pub fn insert(&mut self, key: String, symbol: String)
        ensures
            final(self)@ == old(self)@.insert(key@, symbol@),
    {
        let ghost before = self.map@;
        self.map.insert(key, symbol);
        assert(self.map@.map_values(|s: String| s@) =~= before.map_values(|s: String| s@).insert(
            key@,
            symbol@,
        ));
    }
}

/// What has been handed out of shared memory: the symbol of each allocation key, and that of
/// each kernel whose pool of dynamic shared memory has been declared.
#[verifier::ext_equal]
pub struct SharedTable {
    pub keys: Map<Seq<char>, Seq<char>>,
    pub pools: Map<Seq<char>, Seq<char>>,
}

impl SharedTable {
    /// Nothing has been handed out.
    pub open spec fn empty() -> SharedTable {
        SharedTable { keys: Map::empty(), pools: Map::empty() }
    }
}

/// Static shared allocations by allocation key, and the kernels whose dynamic shared memory
/// has been declared. No key can be taken for a kernel.
pub struct SharedGlobalsMap {
    keys: SymbolMap,
    pools: SymbolMap,
}

impl View for SharedGlobalsMap {
    type V = SharedTable;

    closed spec fn view(&self) -> SharedTable {
        SharedTable { keys: self.keys@, pools: self.pools@ }
    }
}

impl SharedGlobalsMap {
    /// The empty map.
    pub fn new() -> (r: Self)
        ensures
            r@ == SharedTable::empty(),
    {
        SharedGlobalsMap { keys: SymbolMap::new(), pools: SymbolMap::new() }
    }

    /// The symbol for the allocation key `key`.
    pub fn get(&self, key: &str) -> (r: Option<String>)
        ensures
            match r {
                Some(s) => self@.keys.contains_key(key@) && s@ == self@.keys[key@],
                None => !self@.keys.contains_key(key@),
            },
    {
        self.keys.get(key)
    }

    /// Lets `symbol` stand for the allocation key `key` from now on.
    pub fn insert(&mut self, key: String, symbol: String)
        ensures
            final(self)@ == (SharedTable {
                keys: old(self)@.keys.insert(key@, symbol@),
                ..old(self)@
            }),
    {
        self.keys.insert(key, symbol);
    }

    /// Whether the pool of `kernel` has been declared.
    pub fn is_declared(&self, kernel: &str) -> (r: bool)
        ensures
            r == self@.pools.contains_key(kernel@),
    {
        self.pools.contains_key(kernel)
    }

    /// Marks the pool of `kernel` as declared under `symbol`.
    pub fn declare(&mut self, kernel: String, symbol: String)
        ensures
            final(self)@ == (SharedTable {
                pools: old(self)@.pools.insert(kernel@, symbol@),
                ..old(self)@
            }),
    {
        self.pools.insert(kernel, symbol);
    }
}

/// For each kernel with dynamic shared memory, its symbol and the largest alignment that
/// any use in the kernel asks for.
pub struct DynamicSmemAlignmentMap {
    map: StringHashMap<(String, u64)>,
}

impl View for DynamicSmemAlignmentMap {
    type V = Map<Seq<char>, (Seq<char>, u64)>;

    closed spec fn view(&self) -> Map<Seq<char>, (Seq<char>, u64)> {
        self.map@.map_values(|e: (String, u64)| (e.0@, e.1))
    }
}

impl DynamicSmemAlignmentMap {
    /// The empty map.
    pub fn new() -> (r: Self)
        ensures
            r@ == Map::<Seq<char>, (Seq<char>, u64)>::empty(),
    {
        let r = DynamicSmemAlignmentMap { map: StringHashMap::new() };
        assert(r@ =~= Map::<Seq<char>, (Seq<char>, u64)>::empty());
        r
    }

    /// The symbol and alignment for `kernel`.
    pub fn get(&self, kernel: &str) -> (r: Option<(String, u64)>)
        ensures
            match r {
                Some(e) => self@.contains_key(kernel@) && (e.0@, e.1) == self@[kernel@],
                None => !self@.contains_key(kernel@),
            },
    {
        match self.map.get(kernel) {
            Some(e) => Some((e.0.clone(), e.1)),
            None => None,
        }
    }

    /// Sets the symbol and alignment for `kernel`.
    pub fn insert(&mut self, kernel: String, symbol: String, alignment: u64)
        ensures
            final(self)@ == old(self)@.insert(kernel@, (symbol@, alignment)),
    {
        let ghost before = self.map@;
        self.map.insert(kernel, (symbol, alignment));
        assert(self.map@.map_values(|e: (String, u64)| (e.0@, e.1)) =~= before.map_values(
            |e: (String, u64)| (e.0@, e.1),
        ).insert(kernel@, (symbol@, alignment)));
    }
}

/// How many static shared allocations and ordinary device globals have been named.
#[derive(Clone, Copy, PartialEq, Eq, Structural, Debug)]
pub struct SymbolCounters {
    pub shared: usize,
    pub device: usize,
}

} // verus!
