//! The three lookup tables from mnemonic fragments to bit patterns.

use crate::error::EncodeError;
use crate::error::ErrorView;
use crate::error::Table;
use crate::error::result_view;
use vstd::hash_map::StringHashMap;
use vstd::prelude::*;
use vstd::string::StringExecFns;

verus! {

/// Jump conditions and their three-bit fields.
pub open spec fn jump_map() -> Map<Seq<char>, u16> {
    map![
        "GT"@ => 0b001u16,
        "EQ"@ => 0b010u16,
        "GE"@ => 0b011u16,
        "LT"@ => 0b100u16,
        "NE"@ => 0b101u16,
        "LE"@ => 0b110u16,
    ]
}

/// Operand sources and their seven-bit fields.
pub open spec fn source_map() -> Map<Seq<char>, u16> {
    map![
        "0"@ => 0b0101010u16,
        "1"@ => 0b0111111u16,
        "-1"@ => 0b0111010u16,
        "D"@ => 0b0001100u16,
        "A"@ => 0b0110000u16,
        "(A)"@ => 0b1110000u16,
    ]
}

/// Target registers and their three-bit fields.
pub open spec fn target_map() -> Map<Seq<char>, u16> {
    map![
        "D"@ => 0b010u16,
        "A"@ => 0b100u16,
    ]
}

/// The contents of `table`.
pub open spec fn table_map(table: Table) -> Map<Seq<char>, u16> {
    match table {
        Table::Jump => jump_map(),
        Table::Source => source_map(),
        Table::Target => target_map(),
    }
}

/// The bits that `table` holds for `key`, or the unknown-symbol error naming both.
pub open spec fn lookup(table: Table, key: Seq<char>) -> Result<u16, ErrorView> {
    if table_map(table).contains_key(key) {
        Ok(table_map(table)[key])
    } else {
        Err(ErrorView::UnknownSymbol { table, token: key })
    }
}

/// The jump table entry by entry: six conditions, no other key.
pub proof fn lemma_jump_table(key: Seq<char>)
    ensures
        lookup(Table::Jump, key) == if key == "GT"@ {
            Ok::<u16, ErrorView>(0b001u16)
        } else if key == "EQ"@ {
            Ok(0b010u16)
        } else if key == "GE"@ {
            Ok(0b011u16)
        } else if key == "LT"@ {
            Ok(0b100u16)
        } else if key == "NE"@ {
            Ok(0b101u16)
        } else if key == "LE"@ {
            Ok(0b110u16)
        } else {
            Err(ErrorView::UnknownSymbol { table: Table::Jump, token: key })
        },
{
    reveal_strlit("GT");
    reveal_strlit("EQ");
    reveal_strlit("GE");
    reveal_strlit("LT");
    reveal_strlit("NE");
    reveal_strlit("LE");
    assert("GT"@[0] == 'G' && "GT"@[1] == 'T');
    assert("EQ"@[0] == 'E' && "EQ"@[1] == 'Q');
    assert("GE"@[0] == 'G' && "GE"@[1] == 'E');
    assert("LT"@[0] == 'L' && "LT"@[1] == 'T');
    assert("NE"@[0] == 'N' && "NE"@[1] == 'E');
    assert("LE"@[0] == 'L' && "LE"@[1] == 'E');
}

/// The source table entry by entry: six operands, no other key.
pub proof fn lemma_source_table(key: Seq<char>)
    ensures
        lookup(Table::Source, key) == if key == "0"@ {
            Ok::<u16, ErrorView>(0b0101010u16)
        } else if key == "1"@ {
            Ok(0b0111111u16)
        } else if key == "-1"@ {
            Ok(0b0111010u16)
        } else if key == "D"@ {
            Ok(0b0001100u16)
        } else if key == "A"@ {
            Ok(0b0110000u16)
        } else if key == "(A)"@ {
            Ok(0b1110000u16)
        } else {
            Err(ErrorView::UnknownSymbol { table: Table::Source, token: key })
        },
{
    reveal_strlit("0");
    reveal_strlit("1");
    reveal_strlit("-1");
    reveal_strlit("D");
    reveal_strlit("A");
    reveal_strlit("(A)");
    assert("0"@[0] == '0' && "1"@[0] == '1' && "D"@[0] == 'D' && "A"@[0] == 'A');
    assert("-1"@.len() == 2 && "(A)"@.len() == 3);
}

/// The target table entry by entry: two registers, no other key.
pub proof fn lemma_target_table(key: Seq<char>)
    ensures
        lookup(Table::Target, key) == if key == "D"@ {
            Ok::<u16, ErrorView>(0b010u16)
        } else if key == "A"@ {
            Ok(0b100u16)
        } else {
            Err(ErrorView::UnknownSymbol { table: Table::Target, token: key })
        },
{
    reveal_strlit("D");
    reveal_strlit("A");
    assert("D"@[0] == 'D' && "A"@[0] == 'A');
}

/// Every entry fits in its field: seven bits in the source table, three bits in
/// the other two, where no entry is zero.
pub proof fn lemma_entries_fit(table: Table, key: Seq<char>)
    requires
        lookup(table, key) is Ok,
    ensures
        table == Table::Source ==> lookup(table, key)->Ok_0 < 128,
        table != Table::Source ==> 0 < lookup(table, key)->Ok_0 < 8,
{
    match table {
        Table::Jump => lemma_jump_table(key),
        Table::Source => lemma_source_table(key),
        Table::Target => lemma_target_table(key),
    }
}

/// The three tables, built once and only read afterwards.
pub struct LookupTables {
    jump: StringHashMap<u16>,
    source: StringHashMap<u16>,
    target: StringHashMap<u16>,
}

impl LookupTables {
    /// What these tables hold for `table`.
    pub closed spec fn entries(&self, table: Table) -> Map<Seq<char>, u16> {
        match table {
            Table::Jump => self.jump@,
            Table::Source => self.source@,
            Table::Target => self.target@,
        }
    }

    /// The tables hold the entries of [`table_map`], all of them and no others.
    pub open spec fn is_complete(&self) -> bool {
        forall|table: Table| #[trigger] self.entries(table) == table_map(table)
    }

    #[verifier::type_invariant]
    pub(crate) open spec fn holds_the_tables(self) -> bool {
        self.is_complete()
    }

    /// Builds the three tables.
    pub fn new() -> (tables: LookupTables)
        ensures
            tables.is_complete(),
    {
        let mut jump: StringHashMap<u16> = StringHashMap::new();
        jump.insert(String::from_str("GT"), 0b001);
        jump.insert(String::from_str("EQ"), 0b010);
        jump.insert(String::from_str("GE"), 0b011);
        jump.insert(String::from_str("LT"), 0b100);
        jump.insert(String::from_str("NE"), 0b101);
        jump.insert(String::from_str("LE"), 0b110);
        let mut source: StringHashMap<u16> = StringHashMap::new();
        source.insert(String::from_str("0"), 0b0101010);
        source.insert(String::from_str("1"), 0b0111111);
        source.insert(String::from_str("-1"), 0b0111010);
        source.insert(String::from_str("D"), 0b0001100);
        source.insert(String::from_str("A"), 0b0110000);
        source.insert(String::from_str("(A)"), 0b1110000);
        let mut target: StringHashMap<u16> = StringHashMap::new();
        target.insert(String::from_str("D"), 0b010);
        target.insert(String::from_str("A"), 0b100);
        let tables = LookupTables { jump, source, target };
        tables
    }

    /// Looks `key` up in `table`.
    pub fn lookup(&self, table: Table, key: &str) -> (r: Result<u16, EncodeError>)
        ensures
            result_view(r) == lookup(table, key@),
    {
        proof {
            use_type_invariant(self);
            assert(self.entries(table) == table_map(table));
        }
        let found = match table {
            Table::Jump => self.jump.get(key),
            Table::Source => self.source.get(key),
            Table::Target => self.target.get(key),
        };
        match found {
            Some(bits) => Ok(*bits),
            None => Err(EncodeError::UnknownSymbol { table, token: key.to_owned() }),
        }
    }
}

} // verus!
