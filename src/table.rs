use vstd::prelude::*;

use crate::error::DbgenError;

verus! {

/// The ten table selectors that the generator understands. The eight real
/// tables each have a schema; `OrderLineitem` and `PartPartSupp` select two
/// related tables at once and have none.
#[derive(Debug, Clone, Copy, PartialEq, Eq, Structural)]
pub enum Table {
    Part,
    PartSupp,
    Supplier,
    Customer,
    Orders,
    Lineitem,
    OrderLineitem,
    PartPartSupp,
    Nation,
    Region,
}

/// The canonical name of a table selector.
pub open spec fn table_name(t: Table) -> Seq<char> {
    match t {
        Table::Part => "part"@,
        Table::PartSupp => "partsupp"@,
        Table::Supplier => "supplier"@,
        Table::Customer => "customer"@,
        Table::Orders => "orders"@,
        Table::Lineitem => "lineitem"@,
        Table::OrderLineitem => "order-lineitem"@,
        Table::PartPartSupp => "part-partsupp"@,
        Table::Nation => "nation"@,
        Table::Region => "region"@,
    }
}

/// The selector whose canonical name is `s`, if any.
pub open spec fn table_of_name(s: Seq<char>) -> Option<Table> {
    if s == "part"@ {
        Some(Table::Part)
    } else if s == "partsupp"@ {
        Some(Table::PartSupp)
    } else if s == "supplier"@ {
        Some(Table::Supplier)
    } else if s == "customer"@ {
        Some(Table::Customer)
    } else if s == "orders"@ {
        Some(Table::Orders)
    } else if s == "lineitem"@ {
        Some(Table::Lineitem)
    } else if s == "order-lineitem"@ {
        Some(Table::OrderLineitem)
    } else if s == "part-partsupp"@ {
        Some(Table::PartPartSupp)
    } else if s == "nation"@ {
        Some(Table::Nation)
    } else if s == "region"@ {
        Some(Table::Region)
    } else {
        None
    }
}

/// The integer code that the generator uses for a selector.
pub open spec fn table_code(t: Table) -> u32 {
    match t {
        Table::Part => 0,
        Table::PartSupp => 1,
        Table::Supplier => 2,
        Table::Customer => 3,
        Table::Orders => 4,
        Table::Lineitem => 5,
        Table::OrderLineitem => 6,
        Table::PartPartSupp => 7,
        Table::Nation => 8,
        Table::Region => 9,
    }
}

/// Whether a selector stands for two tables rather than one.
pub open spec fn is_composite(t: Table) -> bool {
    t == Table::OrderLineitem || t == Table::PartPartSupp
}

/// Character-wise equality of two strings.
pub fn str_eq(a: &str, b: &str) -> (r: bool)
    ensures
        r == (a@ == b@),
{
    let n = a.unicode_len();
    if n != b.unicode_len() {
        return false;
    }
    let mut i: usize = 0;
    while i < n
        invariant
            n == a@.len(),
            n == b@.len(),
            i <= n,
            a@.subrange(0, i as int) == b@.subrange(0, i as int),
        decreases n - i,
    {
        if a.get_char(i) != b.get_char(i) {
            return false;
        }
        assert(a@.subrange(0, i + 1) == a@.subrange(0, i as int).push(a@[i as int]));
        assert(b@.subrange(0, i + 1) == b@.subrange(0, i as int).push(b@[i as int]));
        i = i + 1;
    }
    assert(a@ == a@.subrange(0, n as int));
    assert(b@ == b@.subrange(0, n as int));
    true
}

impl Table {
    /// Parses a canonical selector name.
    pub fn from_str(s: &str) -> (r: Result<Table, DbgenError>)
        ensures
            r == (match table_of_name(s@) {
                Some(t) => Ok::<Table, DbgenError>(t),
                None => Err(DbgenError::UnknownTable),
            }),
    {
        if str_eq(s, "part") {
            Ok(Table::Part)
        } else if str_eq(s, "partsupp") {
            Ok(Table::PartSupp)
        } else if str_eq(s, "supplier") {
            Ok(Table::Supplier)
        } else if str_eq(s, "customer") {
            Ok(Table::Customer)
        } else if str_eq(s, "orders") {
            Ok(Table::Orders)
        } else if str_eq(s, "lineitem") {
            Ok(Table::Lineitem)
        } else if str_eq(s, "order-lineitem") {
            Ok(Table::OrderLineitem)
        } else if str_eq(s, "part-partsupp") {
            Ok(Table::PartPartSupp)
        } else if str_eq(s, "nation") {
            Ok(Table::Nation)
        } else if str_eq(s, "region") {
            Ok(Table::Region)
        } else {
            Err(DbgenError::UnknownTable)
        }
    }

    /// The canonical name of this selector.
    pub fn to_string(&self) -> (r: String)
        ensures
            r@ == table_name(*self),
    {
        let s = match self {
            Table::Part => "part",
            Table::PartSupp => "partsupp",
            Table::Supplier => "supplier",
            Table::Customer => "customer",
            Table::Orders => "orders",
            Table::Lineitem => "lineitem",
            Table::OrderLineitem => "order-lineitem",
            Table::PartPartSupp => "part-partsupp",
            Table::Nation => "nation",
            Table::Region => "region",
        };
        String::from_str(s)
    }

    /// The integer code that the generator's entry point takes for this selector.
    pub fn code(&self) -> (r: u32)
        ensures
            r == table_code(*self),
    {
        match self {
            Table::Part => 0,
            Table::PartSupp => 1,
            Table::Supplier => 2,
            Table::Customer => 3,
            Table::Orders => 4,
            Table::Lineitem => 5,
            Table::OrderLineitem => 6,
            Table::PartPartSupp => 7,
            Table::Nation => 8,
            Table::Region => 9,
        }
    }

    /// Whether this selector stands for two tables and so has no single schema.
    pub fn is_composite(&self) -> (r: bool)
        ensures
            r == is_composite(*self),
    {
        matches!(self, Table::OrderLineitem | Table::PartPartSupp)
    }
}

/// Parsing the name of a selector gives that selector back, and a string that
/// parses names the selector it parses to: names and selectors correspond one
/// to one, and no other string parses.
pub proof fn lemma_name_round_trip(t: Table, s: Seq<char>)
    ensures
        table_of_name(table_name(t)) == Some(t),
        table_of_name(s) matches Some(u) ==> table_name(u) == s,
{
    reveal_strlit("part");
    reveal_strlit("partsupp");
    reveal_strlit("supplier");
    reveal_strlit("customer");
    reveal_strlit("orders");
    reveal_strlit("lineitem");
    reveal_strlit("order-lineitem");
    reveal_strlit("part-partsupp");
    reveal_strlit("nation");
    reveal_strlit("region");
    // Names of equal length already differ in their first character.
    assert(table_name(t).len() == 4 ==> table_name(t) == "part"@);
    assert(table_name(t).len() == 13 ==> table_name(t) == "part-partsupp"@);
    assert(table_name(t).len() == 14 ==> table_name(t) == "order-lineitem"@);
    match t {
        Table::PartSupp => assert(table_name(t)[0] == 'p'),
        Table::Supplier => assert(table_name(t)[0] == 's'),
        Table::Customer => assert(table_name(t)[0] == 'c'),
        Table::Lineitem => assert(table_name(t)[0] == 'l'),
        Table::Orders => assert(table_name(t)[0] == 'o'),
        Table::Nation => assert(table_name(t)[0] == 'n'),
        Table::Region => assert(table_name(t)[0] == 'r'),
        _ => {},
    }
}

} // verus!
