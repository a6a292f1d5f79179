//! The transfer protocols that a build knows.
use vstd::prelude::*;
use crate::text::same_text;

verus! {

/// A transfer protocol.
#[derive(Clone, Copy, Debug, PartialEq, Eq, Structural)]
pub struct TransferProtocol {
    pub id: u8,
    pub http: bool,
    pub enabled: bool,
    pub default_port: u16,
}

/// A protocol under its URI scheme.
#[derive(Debug, PartialEq, Eq)]
pub struct ProtocolRow {
    pub code: String,
    pub protocol: TransferProtocol,
}

/// The known protocols, each under its scheme.
#[derive(Debug, PartialEq, Eq)]
pub struct ProtocolTable {
    pub rows: Vec<ProtocolRow>,
}

/// The first row from `from` on with this scheme.
pub open spec fn row_of(rows: Seq<ProtocolRow>, scheme: Seq<char>, from: int) -> Option<int>
    decreases rows.len() - from,
{
    if from < 0 || from >= rows.len() {
        None
    } else if rows[from].code@ == scheme {
        Some(from)
    } else {
        row_of(rows, scheme, from + 1)
    }
}

impl ProtocolTable {
    /// The protocol of a scheme, if it is known.
    pub open spec fn spec_parse(self, scheme: Seq<char>) -> Option<TransferProtocol> {
        match row_of(self.rows@, scheme, 0) {
            Some(i) => Some(self.rows@[i].protocol),
            None => None,
        }
    }

    /// The protocol of a scheme, if it is known.
    pub fn parse(&self, scheme: &str) -> (r: Option<TransferProtocol>)
        ensures
            r == self.spec_parse(scheme@),
    {
        let mut i: usize = 0;
        while i < self.rows.len()
            invariant
                i <= self.rows.len(),
                row_of(self.rows@, scheme@, 0) == row_of(self.rows@, scheme@, i as int),
            decreases self.rows.len() - i,
        {
            if same_text(self.rows[i].code.as_str(), scheme) {
                return Some(self.rows[i].protocol);
            }
            i = i + 1;
        }
        None
    }
}

} // verus!
