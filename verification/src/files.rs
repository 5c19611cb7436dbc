//! An in-memory file with an open/closed state and a fallible open step.

use rand::Rng;
use vstd::prelude::*;

verus! {

/// Relies on rand's `Rng::gen_ratio` (through `rand::thread_rng`): a
/// Bernoulli draw that is true with probability `numerator` in
/// `denominator`.  Which way a single draw falls cannot be promised; rand's
/// documentation does promise the two degenerate ratios, and that the call
/// only panics when the ratio is malformed, which the precondition rules
/// out.
#[verifier::external_body]
fn random_ratio(numerator: u32, denominator: u32) -> (r: bool)
    requires
        0 < denominator,
        numerator <= denominator,
    ensures
        numerator == 0 ==> !r,
        numerator == denominator ==> r,
{
    rand::thread_rng().gen_ratio(numerator, denominator)
}

/// Whether a file is currently open.
#[derive(PartialEq, Eq, Structural, Debug, Clone, Copy)]
pub enum FileState {
    Open,
    Closed,
}

/// An in-memory file: a name, its bytes, and its state.
pub struct File {
    name: String,
    data: Vec<u8>,
    state: FileState,
}

impl File {
    /// The file's name.
    pub closed spec fn spec_name(&self) -> Seq<char> {
        self.name@
    }

    /// The file's bytes.
    pub closed spec fn spec_data(&self) -> Seq<u8> {
        self.data@
    }

    /// Whether the file is open.
    pub closed spec fn spec_state(&self) -> FileState {
        self.state
    }

    /// A new, empty, closed file.
    pub fn new(name: &str) -> (f: File)
        ensures
            f.spec_name() == name@,
            f.spec_data() == Seq::<u8>::empty(),
            f.spec_state() is Closed,
    {
        File { name: name.to_owned(), data: Vec::new(), state: FileState::Closed }
    }

    /// A new, closed file holding the given bytes.
    pub fn new_with_data(name: &str, data: Vec<u8>) -> (f: File)
        ensures
            f.spec_name() == name@,
            f.spec_data() == data@,
            f.spec_state() is Closed,
    {
        let mut f = Self::new(name);
        f.data = data;
        f
    }

    /// The length of the file in bytes.
    pub fn len(&self) -> (l: usize)
        ensures
            l == self.spec_data().len(),
    {
        self.data.len()
    }

    /// The file's name.
    pub fn name(&self) -> (n: String)
        ensures
            n@ == self.spec_name(),
    {
        self.name.clone()
    }

    /// Tries to open the file.  One open in ten fails (a random draw), with
    /// a message naming the file and the state unchanged; otherwise the
    /// file is open afterwards.
    pub fn open(&mut self) -> (r: Result<(), String>)
        ensures
            final(self).spec_name() == old(self).spec_name(),
            final(self).spec_data() == old(self).spec_data(),
            r is Ok ==> final(self).spec_state() is Open,
            r matches Err(m) ==> final(self).spec_state() == old(self).spec_state() && m@
                == "Failed to open file "@ + old(self).spec_name(),
    {
        let one_in_ten = random_ratio(1, 10);
        if one_in_ten {
            let mut msg = "Failed to open file ".to_owned();
            msg.append(self.name.as_str());
            return Err(msg);
        }

        self.state = FileState::Open;
        Ok(())
    }

    /// Closes the file.
    pub fn close(&mut self)
        ensures
            final(self).spec_name() == old(self).spec_name(),
            final(self).spec_data() == old(self).spec_data(),
            final(self).spec_state() is Closed,
    {
        self.state = FileState::Closed;
    }
}

/// Something whose contents can be read out as bytes.
pub trait Read {
    /// Appends the contents to `save_to`, reporting how many bytes were
    /// written, or an error message.
    fn read(&self, save_to: &mut Vec<u8>) -> Result<usize, String>;
}

impl Read for File {
    /// Reading an open file appends its bytes to `save_to` and reports how
    /// many; reading a closed file fails and leaves `save_to` alone.
    fn read(&self, save_to: &mut Vec<u8>) -> (r: Result<usize, String>)
        ensures
            self.spec_state() is Open ==> r == Ok::<usize, String>(self.spec_data().len() as usize)
                && final(save_to)@ == old(save_to)@ + self.spec_data(),
            !(self.spec_state() is Open) ==> final(save_to)@ == old(save_to)@ && (r matches Err(m)
                && m@ == "File must be open for reading"@),
    {
        if self.state != FileState::Open {
            return Err("File must be open for reading".to_owned());
        }

        let mut tmp = self.data.clone();
        let data_len = tmp.len();

        save_to.append(&mut tmp);

        Ok(data_len)
    }
}

} // verus!
