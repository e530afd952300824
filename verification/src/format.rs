//! What an application puts on the clipboard: one representation of the
//! data, under the name by which other clients ask for it.

use crate::buffer::copy_range;
use vstd::prelude::*;
use vstd::string::StringSliceAdditionalSpecFns;

verus! {

/// The name of a representation, such as `UTF8_STRING` or `image/png`.
pub type FormatId = &'static str;

/// The name under which plain text is offered.
pub const TEXT: FormatId = "UTF8_STRING";

/// One representation of the clipboard's data.
#[derive(Debug, PartialEq, Eq)]
pub struct ClipboardFormat {
    pub identifier: FormatId,
    pub data: Vec<u8>,
}

/// A [`ClipboardFormat`] as a mathematical value: the bytes of its name and
/// the bytes of its data.
pub struct FormatView {
    pub name: Seq<u8>,
    pub data: Seq<u8>,
}

impl View for ClipboardFormat {
    type V = FormatView;

    open spec fn view(&self) -> FormatView {
        FormatView { name: self.identifier.spec_bytes(), data: self.data@ }
    }
}

impl ClipboardFormat {
    /// The representation `data` under the name `identifier`.
    pub fn new(identifier: FormatId, data: Vec<u8>) -> (format: Self)
        ensures
            format.identifier == identifier,
            format.data == data,
    {
        ClipboardFormat { identifier, data }
    }

    /// The text `s` as a representation under the name [`TEXT`].
    pub fn text(s: &str) -> (format: Self)
        ensures
            format.identifier == TEXT,
            format.data@ == s.spec_bytes(),
    {
        let bytes = s.as_bytes();
        let mut data: Vec<u8> = Vec::new();
        let mut i: usize = 0;
        while i < bytes.len()
            invariant
                i <= bytes@.len(),
                data@ == bytes@.take(i as int),
            decreases bytes@.len() - i,
        {
            data.push(bytes[i]);
            i += 1;
        }
        assert(bytes@.take(bytes@.len() as int) == bytes@);
        ClipboardFormat { identifier: TEXT, data }
    }

    /// A copy of this representation.
    pub fn duplicate(&self) -> (copy: Self)
        ensures
            copy@ == self@,
            copy.identifier == self.identifier,
    {
        let data = copy_range(&self.data, 0, self.data.len());
        assert(data@ == self.data@);
        ClipboardFormat { identifier: self.identifier, data }
    }
}

} // verus!
