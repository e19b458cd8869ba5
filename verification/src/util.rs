use vstd::prelude::*;
use vstd::string::StringExecFns;

verus! {

/// An axis-aligned box in pixel coordinates: origin `(x, y)`, size `w` x `h`.
#[derive(Debug)]
pub struct AABB {
    pub x: u32,
    pub y: u32,
    pub w: u32,
    pub h: u32,
}

impl AABB {
    /// The box as `[x, y, w, h]`.
    pub fn as_array(&self) -> (r: [u32; 4])
        ensures
            r@ == seq![self.x, self.y, self.w, self.h],
    {
        [self.x, self.y, self.w, self.h]
    }
}

} // verus!

verus! {

/// Whether two strings hold the same characters.
pub fn str_eq(a: &str, b: &str) -> (r: bool)
    ensures
        r == (a@ == b@),
{
    let n = a.unicode_len();
    if n != b.unicode_len() {
        return false;
    }
    let mut i: usize = 0;
    while i < n
        invariant
            n == a@.len(),
            n == b@.len(),
            i <= n,
            forall|j: int| 0 <= j < i ==> a@[j] == b@[j],
        decreases n - i,
    {
        if a.get_char(i) != b.get_char(i) {
            return false;
        }
        i = i + 1;
    }
    assert(a@ =~= b@);
    true
}

/// `String::push`: appends the character to the string.
#[verifier::external_body]
pub(crate) fn push_char(s: &mut String, c: char)
    ensures
        final(s)@ == old(s)@.push(c),
{
    s.push(c);
}

/// Why an upload's form fields are refused.
#[derive(Debug, Clone, PartialEq)]
pub enum UploadError {
    /// A second `file` field.
    OnlyOneFile,
    /// A field that is not `file`, by its name.
    UnexpectedField(String),
}

impl UploadError {
    /// `only one file`, or `expected `file` got <name>`.
    pub fn message(&self) -> (m: String)
        ensures
            m@ == (match self {
                UploadError::OnlyOneFile => "only one file"@,
                UploadError::UnexpectedField(name) => "expected `file` got "@ + name@,
            }),
    {
        match self {
            UploadError::OnlyOneFile => String::from_str("only one file"),
            UploadError::UnexpectedField(name) => {
                let mut m = String::from_str("expected `file` got ");
                m.append(name.as_str());
                m
            },
        }
    }
}

/// Whether the next field of an upload, named `name`, is taken: an upload
/// holds exactly one field, named `file`; `have_file` tells whether it came
/// already.
pub fn accept_part(name: &str, have_file: bool) -> (r: Result<(), UploadError>)
    ensures
        name@ == "file"@ && !have_file ==> r is Ok,
        name@ == "file"@ && have_file ==> r == Err::<(), UploadError>(UploadError::OnlyOneFile),
        name@ != "file"@ ==> (r matches Err(UploadError::UnexpectedField(n)) && n@ == name@),
{
    if str_eq(name, "file") {
        if have_file {
            Err(UploadError::OnlyOneFile)
        } else {
            Ok(())
        }
    } else {
        Err(UploadError::UnexpectedField(String::from_str(name)))
    }
}

} // verus!
