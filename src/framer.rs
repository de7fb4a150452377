use vstd::prelude::*;
use vstd::string::StringExecFns;

use crate::envelope::item_close;
use crate::text::{ends_with, has_suffix};

verus! {

/// Groups the lines of the input stream into records: a record ends with
/// the line that ends in `</item>`.
pub struct StreamFramer {
    buffer: String,
}

impl View for StreamFramer {
    type V = Seq<char>;

    /// The lines taken in since the last record ended, joined.
    closed spec fn view(&self) -> Seq<char> {
        self.buffer@
    }
}

impl StreamFramer {
    /// A framer with nothing taken in.
    pub fn new() -> (r: StreamFramer)
        ensures
            r@ == Seq::<char>::empty(),
    {
        StreamFramer { buffer: String::new() }
    }

    /// Takes in one line, without its line break. Where the line ends in
    /// `</item>`, hands out everything taken in since the last record as
    /// one record and starts afresh.
    pub fn push_line(&mut self, line: &str) -> (r: Option<String>)
        ensures
            has_suffix(line@, item_close()) ==> (r matches Some(rec) && rec@ == old(self)@ + line@),
            has_suffix(line@, item_close()) ==> final(self)@ == Seq::<char>::empty(),
            !has_suffix(line@, item_close()) ==> r is None && final(self)@ == old(self)@ + line@,
    {
        self.buffer.append(line);
        proof {
            reveal_strlit("</item>");
        }
        assert("</item>"@ =~= item_close());
        if ends_with(line, "</item>") {
            let mut record = String::new();
            std::mem::swap(&mut record, &mut self.buffer);
            Some(record)
        } else {
            None
        }
    }
}

} // verus!
