use vstd::prelude::*;

verus! {

use vstd::std_specs::cmp::PartialEqSpec;
use vstd::string::StringExecFns;

/// The character for one decimal digit.
pub open spec fn spec_digit(d: nat) -> char {
    if d == 0 {
        '0'
    } else if d == 1 {
        '1'
    } else if d == 2 {
        '2'
    } else if d == 3 {
        '3'
    } else if d == 4 {
        '4'
    } else if d == 5 {
        '5'
    } else if d == 6 {
        '6'
    } else if d == 7 {
        '7'
    } else if d == 8 {
        '8'
    } else {
        '9'
    }
}

/// The decimal digits of `n`, most significant first, with no leading zeros
/// except for `n == 0` itself.
pub open spec fn spec_decimal(n: nat) -> Seq<char>
    decreases n,
{
    if n < 10 {
        seq![spec_digit(n)]
    } else {
        spec_decimal(n / 10) + seq![spec_digit(n % 10)]
    }
}

/// The one-character string for a decimal digit.
fn digit_str(d: u64) -> (r: &'static str)
    requires
        d < 10,
    ensures
        r@ == seq![spec_digit(d as nat)],
{
    proof {
        reveal_strlit("0");
        reveal_strlit("1");
        reveal_strlit("2");
        reveal_strlit("3");
        reveal_strlit("4");
        reveal_strlit("5");
        reveal_strlit("6");
        reveal_strlit("7");
        reveal_strlit("8");
        reveal_strlit("9");
    }
    if d == 0 {
        "0"
    } else if d == 1 {
        "1"
    } else if d == 2 {
        "2"
    } else if d == 3 {
        "3"
    } else if d == 4 {
        "4"
    } else if d == 5 {
        "5"
    } else if d == 6 {
        "6"
    } else if d == 7 {
        "7"
    } else if d == 8 {
        "8"
    } else {
        "9"
    }
}

/// Renders `n` in decimal.
fn u64_decimal(n: u64) -> (r: String)
    ensures
        r@ == spec_decimal(n as nat),
    decreases n,
{
    if n < 10 {
        digit_str(n).to_owned()
    } else {
        let prefix = u64_decimal(n / 10);
        prefix.concat(digit_str(n % 10))
    }
}

/// Identifies one block by the logical name of its file and the block's
/// zero-based position inside that file.  Immutable after construction;
/// equality and hashing are structural over the pair.
#[derive(Debug, Eq, Hash)]
pub struct BlockId {
    number: u64,
    file_name: String,
}

impl View for BlockId {
    type V = (Seq<char>, u64);

    closed spec fn view(&self) -> (Seq<char>, u64) {
        (self.file_name@, self.number)
    }
}

impl BlockId {
    pub fn new(number: u64, file_name: &str) -> (r: BlockId)
        ensures
            r@ == (file_name@, number),
    {
        BlockId { number, file_name: file_name.to_owned() }
    }

    pub fn get_number(&self) -> (r: u64)
        ensures
            r == self@.1,
    {
        self.number
    }

    pub fn get_file_name(&self) -> (r: &str)
        ensures
            r@ == self@.0,
    {
        self.file_name.as_str()
    }

    /// A human-readable rendering of the identifier, of the form
    /// `[file <name>, block <number>]`, for diagnostics and logging.
    pub fn describe(&self) -> (r: String)
        ensures
            r@ == "[file "@ + self@.0 + ", block "@ + spec_decimal(self@.1 as nat) + "]"@,
    {
        let mut out: String = "[file ".to_owned();
        out.append(self.file_name.as_str());
        out.append(", block ");
        let num = u64_decimal(self.number);
        out.append(num.as_str());
        out.append("]");
        proof {
            assert(out@ =~= "[file "@ + self@.0 + ", block "@ + spec_decimal(self@.1 as nat)
                + "]"@);
        }
        out
    }
}

impl PartialEq for BlockId {
    fn eq(&self, other: &BlockId) -> (r: bool) {
        self.number == other.number && self.file_name == other.file_name
    }
}

impl vstd::std_specs::cmp::PartialEqSpecImpl for BlockId {
    open spec fn obeys_eq_spec() -> bool {
        true
    }

    open spec fn eq_spec(&self, other: &BlockId) -> bool {
        self@ == other@
    }
}

/// Two identifiers compare equal exactly when both the file name and the
/// block number agree; a difference in either field makes them unequal.
pub proof fn lemma_eq_is_structural(a: &BlockId, b: &BlockId)
    ensures
        a.eq_spec(b) <==> (a@.0 == b@.0 && a@.1 == b@.1),
{
}

} // verus!
