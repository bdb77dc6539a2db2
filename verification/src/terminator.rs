//! The line ending of a written document.

use crate::byte_string::{bstr_bytes, bstr_of};
use bstr::BStr;
use vstd::prelude::*;
use vstd::string::*;

verus! {

/// Which line ending closes every line of a written document.
#[derive(Clone, Copy, Debug, PartialEq, Eq, Hash)]
pub enum LineTerminator {
    /// A line feed (`"\n"`).
    Unix,
    /// A carriage return and a line feed (`"\r\n"`).
    Windows,
}

/// `std::path::is_separator`: whether the host takes the character for a
/// separator of path components. The answer depends on the host, so nothing is
/// stated of it.
#[verifier::external_body]
fn host_separates_paths_by(c: char) -> bool {
    std::path::is_separator(c)
}

impl LineTerminator {
    /// The bytes of the line ending.
    pub open spec fn bytes(self) -> Seq<u8> {
        match self {
            LineTerminator::Unix => seq![10u8],
            LineTerminator::Windows => seq![13u8, 10u8],
        }
    }

    /// The characters of the line ending.
    pub open spec fn chars(self) -> Seq<char> {
        match self {
            LineTerminator::Unix => seq!['\n'],
            LineTerminator::Windows => seq!['\r', '\n'],
        }
    }

    /// The line ending of a host: `Windows` on Windows, `Unix` on any other.
    pub fn for_host(windows: bool) -> (terminator: Self)
        ensures
            terminator == if windows {
                LineTerminator::Windows
            } else {
                LineTerminator::Unix
            },
    {
        if windows {
            LineTerminator::Windows
        } else {
            LineTerminator::Unix
        }
    }

    /// The line ending native to the host: `Windows` on Windows, `Unix`
    /// otherwise. Which of the two comes back depends on the host alone.
    ///
    /// Windows is told apart as the host on which a backslash separates the
    /// components of a path.
    pub fn native() -> Self {
        Self::for_host(host_separates_paths_by('\\'))
    }

    /// The line ending as text.
    pub fn as_str(&self) -> (text: &str)
        ensures
            text@ == self.chars(),
            text.spec_bytes() == self.bytes(),
    {
        broadcast use is_ascii_spec_bytes;

        match *self {
            LineTerminator::Unix => {
                proof {
                    reveal_strlit("\n");
                }
                let text = "\n";
                assert(text@ =~= seq!['\n']);
                assert(is_ascii(text));
                assert(text.spec_bytes() =~= seq![10u8]);
                text
            },
            LineTerminator::Windows => {
                proof {
                    reveal_strlit("\r\n");
                }
                let text = "\r\n";
                assert(text@ =~= seq!['\r', '\n']);
                assert(is_ascii(text));
                assert(text.spec_bytes() =~= seq![13u8, 10u8]);
                text
            },
        }
    }

    /// The line ending as a borrowed byte string.
    pub fn as_bstr(&self) -> (text: &BStr)
        ensures
            bstr_bytes(text) == self.bytes(),
    {
        bstr_of(self.as_str())
    }
}

impl Default for LineTerminator {
    /// The line ending native to the host.
    fn default() -> Self {
        LineTerminator::native()
    }
}

} // verus!
