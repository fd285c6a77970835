//! Naming for a bulk rename: each file of a directory gets its running index
//! and a new extension appended to its name.
use vstd::prelude::*;
use vstd::string::StringExecFns;

verus! {

/// The decimal digit for `d < 10`.
pub open spec fn digit_char(d: nat) -> char {
    if d == 0 { '0' }
    else if d == 1 { '1' }
    else if d == 2 { '2' }
    else if d == 3 { '3' }
    else if d == 4 { '4' }
    else if d == 5 { '5' }
    else if d == 6 { '6' }
    else if d == 7 { '7' }
    else if d == 8 { '8' }
    else { '9' }
}

/// `n` written in decimal, without sign or leading zeros.
pub open spec fn decimal_of(n: nat) -> Seq<char>
    decreases n,
{
    if n < 10 {
        seq![digit_char(n)]
    } else {
        decimal_of(n / 10).push(digit_char(n % 10))
    }
}

/// The new name of the file named `file_name` when it gets `index`:
/// `<file_name>_<index>.<extension>`.
pub open spec fn renamed(file_name: Seq<char>, index: nat, extension: Seq<char>) -> Seq<char> {
    file_name + seq!['_'] + decimal_of(index) + seq!['.'] + extension
}

/// Relies on `usize`'s `Display` (through `ToString::to_string`): the number
/// in decimal, without sign or leading zeros.
#[verifier::external_body]
fn decimal_string(n: usize) -> (r: String)
    ensures
        r@ == decimal_of(n as nat),
{
    n.to_string()
}

/// A bulk rename: the directory, the extension to give, and the index of
/// the first file.
#[derive(Debug, Clone)]
pub struct BulkRenamer {
    pub base_path: String,
    pub extension: String,
    pub start_index: usize,
}

impl BulkRenamer {
    pub fn new(base_path: &str, extension: &str, start_index: usize) -> (r: BulkRenamer)
        ensures
            r.base_path@ == base_path@,
            r.extension@ == extension@,
            r.start_index == start_index,
    {
        BulkRenamer { base_path: base_path.to_owned(), extension: extension.to_owned(), start_index }
    }

    /// The new name of `file_name` when it is given `index`.
    pub fn new_name(&self, file_name: &str, index: usize) -> (r: String)
        ensures
            r@ == renamed(file_name@, index as nat, self.extension@),
    {
        let mut name = file_name.to_owned();
        name.append("_");
        let digits = decimal_string(index);
        name.append(digits.as_str());
        name.append(".");
        name.append(self.extension.as_str());
        proof {
            reveal_strlit("_");
            reveal_strlit(".");
        }
        name
    }

    /// The new names of the files, in the order given: the `i`-th file gets
    /// index `start_index + i`.
    pub fn new_names(&self, file_names: &Vec<String>) -> (r: Vec<String>)
        requires
            self.start_index + file_names@.len() <= usize::MAX,
        ensures
            r@.len() == file_names@.len(),
            forall|i: int| 0 <= i < r@.len() ==> (#[trigger] r@[i])@ == renamed(
                file_names@[i]@, (self.start_index + i) as nat, self.extension@,
            ),
    {
        let mut out: Vec<String> = Vec::new();
        let mut i: usize = 0;
        while i < file_names.len()
            invariant
                i <= file_names@.len(),
                self.start_index + file_names@.len() <= usize::MAX,
                out@.len() == i,
                forall|j: int| 0 <= j < i ==> (#[trigger] out@[j])@ == renamed(
                    file_names@[j]@, (self.start_index + j) as nat, self.extension@,
                ),
            decreases file_names@.len() - i,
        {
            let name = self.new_name(file_names[i].as_str(), self.start_index + i);
            out.push(name);
            i = i + 1;
        }
        out
    }
}

} // verus!
