//! The pipeline on a stream of bytes: one newline-terminated record at a
//! time in, the surviving line and its newline out.

use vstd::prelude::*;
use vstd::slice::{slice_subrange, slice_to_vec};
use vstd::utf8::{decode_utf8, encode_utf8, encode_utf8_decode_utf8, valid_utf8};

use crate::outside::decode_text;
use crate::pipeline::{run_steps, Pipeline};
use crate::step::add_capped;

verus! {

/// The newline byte that ends a record.
pub const NEWLINE: u8 = 10;

/// A record without the newline byte that ends it, if it has one.
pub open spec fn line_bytes(record: Seq<u8>) -> Seq<u8> {
    if record.len() > 0 && record.last() == NEWLINE {
        record.drop_last()
    } else {
        record
    }
}

/// What goes out for a surviving line: its bytes and a newline.
pub open spec fn output_bytes(line: Seq<char>) -> Seq<u8> {
    encode_utf8(line).push(NEWLINE)
}

/// Bytes read between two progress reports, at the least.
pub const REPORT_INTERVAL: usize = 256_000;

/// A running count of the bytes read, and of where the last progress
/// report stood.
pub struct ReadTally {
    total: usize,
    at_last_report: usize,
}

impl ReadTally {
    /// Bytes read so far, held at the largest `usize`.
    pub closed spec fn read(&self) -> nat {
        self.total as nat
    }

    /// Bytes read when the last report was due.
    pub closed spec fn reported(&self) -> nat {
        self.at_last_report as nat
    }

    /// The tally keeps no report ahead of what was read.
    pub closed spec fn wf(&self) -> bool {
        self.at_last_report <= self.total
    }

    /// A tally with nothing read.
    pub fn new() -> (r: ReadTally)
        ensures
            r.wf(),
            r.read() == 0,
            r.reported() == 0,
    {
        ReadTally { total: 0, at_last_report: 0 }
    }

    /// Bytes read so far.
    pub fn total(&self) -> (r: usize)
        ensures
            r as nat == self.read(),
    {
        self.total
    }

    /// Counts `n` more bytes read. Returns whether a progress report is
    /// due: more than `REPORT_INTERVAL` bytes were read since the last one.
    /// A due report counts as made.
    pub fn note_read(&mut self, n: usize) -> (due: bool)
        requires
            old(self).wf(),
        ensures
            final(self).wf(),
            final(self).read() == add_capped(old(self).read(), n as nat),
            due == (final(self).read() > old(self).reported() + REPORT_INTERVAL),
            due ==> final(self).reported() == final(self).read(),
            !due ==> final(self).reported() == old(self).reported(),
    {
        self.total = self.total.saturating_add(n);
        let due = self.total - self.at_last_report > REPORT_INTERVAL;
        if due {
            self.at_last_report = self.total;
        }
        due
    }
}

impl Pipeline {
    /// Runs one record of the input through the pipeline. The record's
    /// trailing newline, if any, is not part of the line. A record that is
    /// not valid UTF-8 is skipped, with no step run. Returns the bytes to
    /// write for a surviving line, newline included.
    pub fn process_record(&mut self, record: &[u8]) -> (r: Option<Vec<u8>>)
        ensures
            !valid_utf8(line_bytes(record@)) ==> r is None && final(self)@ == old(self)@,
            valid_utf8(line_bytes(record@)) ==> {
                let (after, out) = run_steps(old(self)@, decode_utf8(line_bytes(record@)));
                &&& final(self)@ == after
                &&& match out {
                    Some(line) => r matches Some(b) && b@ == output_bytes(line),
                    None => r is None,
                }
            },
    {
        let n = record.len();
        let body = if n > 0 && record[n - 1] == NEWLINE {
            slice_subrange(record, 0, n - 1)
        } else {
            record
        };
        proof {
            assert(body@ =~= line_bytes(record@));
        }
        match decode_text(body) {
            None => None,
            Some(text) => {
                proof {
                    encode_utf8_decode_utf8(text@);
                }
                match self.apply(text) {
                    None => None,
                    Some(line) => {
                        let mut bytes = slice_to_vec(line.as_str().as_bytes());
                        bytes.push(NEWLINE);
                        Some(bytes)
                    },
                }
            },
        }
    }
}

} // verus!
