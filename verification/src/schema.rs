//! Schema descriptors: an ordered list of named, typed, optionally-required
//! columns, and the two schema constructors — synthesized positional columns
//! and columns derived from a header row.

use crate::numerals::dec_rep;
use crate::numerals::u64_to_string;
use crate::values::DataType;
use vstd::prelude::*;
use vstd::string::*;

verus! {

/// One column declaration: display name, declared type, required-ness.
#[derive(Debug)]
pub struct Column {
    pub name: String,
    pub data_type: DataType,
    pub required: bool,
}

/// The mathematical model of a [`Column`].
pub struct ColumnModel {
    pub name: Seq<char>,
    pub data_type: DataType,
    pub required: bool,
}

impl View for Column {
    type V = ColumnModel;

    open spec fn view(&self) -> ColumnModel {
        ColumnModel { name: self.name@, data_type: self.data_type, required: self.required }
    }
}

/// An ordered sequence of columns; order defines positional correspondence
/// to raw row values.
#[derive(Debug)]
pub struct Schema {
    pub columns: Vec<Column>,
}

impl View for Schema {
    type V = Seq<ColumnModel>;

    open spec fn view(&self) -> Seq<ColumnModel> {
        self.columns@.map_values(|c: Column| c@)
    }
}

impl Schema {
    /// The number of columns.
    pub fn len(&self) -> (n: usize)
        ensures
            n == self@.len(),
    {
        self.columns.len()
    }
}

/// All leading quote characters removed.
pub open spec fn strip_leading_quotes(s: Seq<char>) -> Seq<char>
    decreases s.len(),
{
    if s.len() > 0 && s[0] == '"' {
        strip_leading_quotes(s.drop_first())
    } else {
        s
    }
}

/// All trailing quote characters removed.
pub open spec fn strip_trailing_quotes(s: Seq<char>) -> Seq<char>
    decreases s.len(),
{
    if s.len() > 0 && s.last() == '"' {
        strip_trailing_quotes(s.drop_last())
    } else {
        s
    }
}

/// The text with its surrounding quote characters stripped.
pub open spec fn strip_quotes(s: Seq<char>) -> Seq<char> {
    strip_trailing_quotes(strip_leading_quotes(s))
}

proof fn lemma_strip_leading(s: Seq<char>, a: int)
    requires
        0 <= a <= s.len(),
        forall|k: int| 0 <= k < a ==> s[k] == '"',
        a == s.len() || s[a] != '"',
    ensures
        strip_leading_quotes(s) =~= s.subrange(a, s.len() as int),
    decreases a,
{
    if a == 0 {
        assert(s.subrange(0, s.len() as int) =~= s);
    } else {
        let t = s.drop_first();
        assert(s[0] == '"');
        assert(forall|k: int| 0 <= k < a - 1 ==> t[k] == '"') by {
            assert(forall|k: int| 0 <= k < t.len() ==> #[trigger] t[k] == s[k + 1]);
        }
        assert(a - 1 == t.len() || t[a - 1] != '"');
        lemma_strip_leading(t, a - 1);
        assert(t.subrange(a - 1, t.len() as int) =~= s.subrange(a, s.len() as int));
    }
}

proof fn lemma_strip_trailing(t: Seq<char>, b: int)
    requires
        0 <= b <= t.len(),
        forall|k: int| b <= k < t.len() ==> t[k] == '"',
        b == 0 || t[b - 1] != '"',
    ensures
        strip_trailing_quotes(t) =~= t.subrange(0, b),
    decreases t.len() - b,
{
    if b == t.len() {
        assert(t.subrange(0, t.len() as int) =~= t);
    } else {
        let u = t.drop_last();
        assert(t.last() == '"');
        assert(forall|k: int| b <= k < u.len() ==> u[k] == t[k]);
        lemma_strip_trailing(u, b);
        assert(u.subrange(0, b) =~= t.subrange(0, b));
    }
}

/// Removes the quote characters that surround a header cell's text.
pub fn strip_quote_marks(s: &String) -> (r: String)
    ensures
        r@ == strip_quotes(s@),
{
    let len = s.as_str().unicode_len();
    let mut a: usize = 0;
    while a < len && s.as_str().get_char(a) == '"'
        invariant
            a <= len,
            len == s@.len(),
            forall|k: int| 0 <= k < a ==> s@[k] == '"',
        decreases len - a,
    {
        a = a + 1;
    }
    let mut b: usize = len;
    while b > a && s.as_str().get_char(b - 1) == '"'
        invariant
            a <= b <= len,
            len == s@.len(),
            forall|k: int| 0 <= k < a ==> s@[k] == '"',
            forall|k: int| b <= k < len ==> s@[k] == '"',
        decreases b,
    {
        b = b - 1;
    }
    proof {
        lemma_strip_leading(s@, a as int);
        let t = s@.subrange(a as int, len as int);
        assert(forall|k: int| b - a <= k < t.len() ==> #[trigger] t[k] == s@[a + k]);
        assert(b - a == 0 || t[b - a - 1] != '"');
        lemma_strip_trailing(t, b - a);
        assert(t.subrange(0, b - a) =~= s@.subrange(a as int, b as int));
    }
    let out = s.as_str().substring_char(a, b);
    String::from_str(out)
}

/// Synthesizes a schema of `columns` generic text columns, none required,
/// each named `#` followed by its zero-based position.
pub fn generate_default_schema(columns: usize) -> (s: Schema)
    ensures
        s@.len() == columns,
        forall|i: int|
            0 <= i < columns ==> s@[i] == (ColumnModel {
                name: seq!['#'] + dec_rep(i as nat),
                data_type: DataType::Text,
                required: false,
            }),
{
    let mut cols: Vec<Column> = Vec::new();
    let mut c: usize = 0;
    while c < columns
        invariant
            c <= columns,
            cols@.len() == c,
            forall|i: int|
                0 <= i < c ==> cols@[i]@ == (ColumnModel {
                    name: seq!['#'] + dec_rep(i as nat),
                    data_type: DataType::Text,
                    required: false,
                }),
        decreases columns - c,
    {
        let digits = u64_to_string(c as u64);
        let name = String::from_str("#").concat(digits.as_str());
        proof {
            reveal_strlit("#");
            assert("#"@ =~= seq!['#']);
            assert(name@ =~= seq!['#'] + dec_rep(c as nat));
        }
        cols.push(Column { name, data_type: DataType::Text, required: false });
        c = c + 1;
    }
    let s = Schema { columns: cols };
    proof {
        assert(forall|i: int| 0 <= i < columns ==> s@[i] == #[trigger] cols@[i]@);
    }
    s
}

/// Derives a schema from a header row: one text column per header cell,
/// none required, named by the cell's text with surrounding quote
/// characters stripped.
pub fn generate_schema(header: &Vec<String>) -> (s: Schema)
    ensures
        s@.len() == header@.len(),
        forall|i: int|
            0 <= i < header@.len() ==> s@[i] == (ColumnModel {
                name: strip_quotes(header@[i]@),
                data_type: DataType::Text,
                required: false,
            }),
{
    let mut cols: Vec<Column> = Vec::new();
    let mut c: usize = 0;
    while c < header.len()
        invariant
            c <= header@.len(),
            cols@.len() == c,
            forall|i: int|
                0 <= i < c ==> cols@[i]@ == (ColumnModel {
                    name: strip_quotes(header@[i]@),
                    data_type: DataType::Text,
                    required: false,
                }),
        decreases header@.len() - c,
    {
        let name = strip_quote_marks(&header[c]);
        cols.push(Column { name, data_type: DataType::Text, required: false });
        c = c + 1;
    }
    let s = Schema { columns: cols };
    proof {
        assert(forall|i: int| 0 <= i < header@.len() ==> s@[i] == #[trigger] cols@[i]@);
    }
    s
}

} // verus!
