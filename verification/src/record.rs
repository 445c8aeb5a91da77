//! The log record: decoding one input line, deciding visibility, and
//! producing the display line.

use crate::json::{lex, parse_tokens, PartialFields};
use crate::level::{displayed_spec, level_ordinal_chars, level_ordinal_spec, threshold_ordinal};
use crate::render::{
    dec_str, format_level, format_msg, format_u64, paint, painted, push_all, push_str_chars,
    rendered_level, rendered_msg,
};
use crate::text::{chars_to_string, str_to_chars};
use crate::time::{normalize_timestamp, utc_form_of};
use vstd::prelude::*;

verus! {

/// One decoded input line.  The timestamp is held in its normalized display
/// form: the instant written in UTC, truncated to whole seconds.
pub struct LogRecord {
    pub time: String,
    pub level: String,
    pub file: Option<String>,
    pub line: Option<usize>,
    pub msg: String,
}

pub ghost struct RecordModel {
    pub time: Seq<char>,
    pub level: Seq<char>,
    pub file: Option<Seq<char>>,
    pub line: Option<usize>,
    pub msg: Seq<char>,
}

pub open spec fn opt_str_model(v: Option<String>) -> Option<Seq<char>> {
    match v {
        Some(x) => Some(x@),
        None => None,
    }
}

impl View for LogRecord {
    type V = RecordModel;

    open spec fn view(&self) -> RecordModel {
        RecordModel {
            time: self.time@,
            level: self.level@,
            file: opt_str_model(self.file),
            line: self.line,
            msg: self.msg@,
        }
    }
}

/// The record a whole line decodes to: the line must lex and parse as the
/// envelope, carry `time`, `level` and `msg`, and its timestamp must have a
/// UTC form; otherwise the line is not a record.
pub open spec fn spec_decode_line(s: Seq<char>) -> Option<RecordModel> {
    match crate::json::spec_fields(s) {
        None => None,
        Some(pf) => if pf.time is Some && pf.level is Some && pf.msg is Some {
            match utc_form_of(pf.time->0) {
                Some(t) => Some(
                    RecordModel {
                        time: t,
                        level: pf.level->0,
                        file: pf.file,
                        line: pf.line,
                        msg: pf.msg->0,
                    },
                ),
                None => None,
            }
        } else {
            None
        },
    }
}

/// Decode one line; `None` exactly when the line is not a record.
pub fn decode_line(line: &str) -> (r: Option<LogRecord>)
    ensures
        match r {
            Some(rec) => spec_decode_line(line@) == Some(rec@),
            None => spec_decode_line(line@) is None,
        },
{
    let cs = str_to_chars(line);
    let toks = match lex(&cs) {
        None => {
            return None;
        },
        Some(t) => t,
    };
    let pf = match parse_tokens(&toks) {
        None => {
            return None;
        },
        Some(f) => f,
    };
    let PartialFields { time, level, msg, file, line: line_no, .. } = pf;
    let (tv, lv, mv) = match (time, level, msg) {
        (Some(tv), Some(lv), Some(mv)) => (tv, lv, mv),
        _ => {
            return None;
        },
    };
    let traw = chars_to_string(&tv);
    let tnorm = match normalize_timestamp(traw.as_str()) {
        None => {
            return None;
        },
        Some(t) => t,
    };
    let fout: Option<String> = match file {
        Some(fv) => Some(chars_to_string(&fv)),
        None => None,
    };
    Some(
        LogRecord {
            time: tnorm,
            level: chars_to_string(&lv),
            file: fout,
            line: line_no,
            msg: chars_to_string(&mv),
        },
    )
}

/// The file-and-line segment: nothing without a file; `file | ` with a file
/// alone; `file:line | ` with both.
pub open spec fn rendered_file_line(file: Option<Seq<char>>, line: Option<usize>) -> Seq<char> {
    match file {
        None => Seq::empty(),
        Some(fp) => match line {
            None => fp + " | "@,
            Some(n) => fp + ":"@ + dec_str(n as int) + " | "@,
        },
    }
}

/// A record with no file renders no file segment; a file alone renders
/// `file | `; a file with a line renders `file:line | `.
pub proof fn law_file_line_forms(file: Option<Seq<char>>, line: Option<usize>)
    ensures
        file is None ==> rendered_file_line(file, line) == Seq::<char>::empty(),
        file is Some && line is None ==> rendered_file_line(file, line) == file->0 + " | "@,
        file is Some && line is Some ==> rendered_file_line(file, line) == file->0 + ":"@
            + dec_str(line->0 as int) + " | "@,
{
}

/// A record's display line: muted timestamp, colorized level tag, the
/// file-and-line segment if any, and the formatted message, newline
/// terminated.
pub open spec fn rendered_record(m: RecordModel, color: bool) -> Seq<char> {
    painted(color, "90"@, m.time) + " "@ + rendered_level(level_ordinal_spec(m.level), color)
        + " | "@ + rendered_file_line(m.file, m.line) + rendered_msg(m.msg, color) + "\n"@
}

impl LogRecord {
    /// The file-and-line segment of the display line.
    pub fn format_file_line(&self) -> (r: Vec<char>)
        ensures
            r@ == rendered_file_line(self@.file, self@.line),
    {
        let mut out: Vec<char> = Vec::new();
        match &self.file {
            None => {},
            Some(fp) => {
                let fv = str_to_chars(fp.as_str());
                push_all(&mut out, &fv);
                match &self.line {
                    None => {},
                    Some(n) => {
                        push_str_chars(&mut out, ":");
                        let d = format_u64(*n as u64);
                        push_all(&mut out, &d);
                    },
                }
                push_str_chars(&mut out, " | ");
            },
        }
        proof {
            assert(out@ =~= rendered_file_line(self@.file, self@.line));
        }
        out
    }

    /// Format a record as its display line.
    pub fn format(&self, color: bool) -> (r: String)
        ensures
            r@ == rendered_record(self@, color),
    {
        let mut out: Vec<char> = Vec::new();
        let tv = str_to_chars(self.time.as_str());
        let tp = paint(color, "90", &tv);
        push_all(&mut out, &tp);
        push_str_chars(&mut out, " ");
        let lv = str_to_chars(self.level.as_str());
        let ord = level_ordinal_chars(&lv);
        let lt = format_level(ord, color);
        push_all(&mut out, &lt);
        push_str_chars(&mut out, " | ");
        let fl = self.format_file_line();
        push_all(&mut out, &fl);
        let mv = str_to_chars(self.msg.as_str());
        let fm = format_msg(&mv, color);
        push_all(&mut out, &fm);
        push_str_chars(&mut out, "\n");
        proof {
            assert(out@ =~= rendered_record(self@, color));
        }
        chars_to_string(&out)
    }

    /// Display a record iff its level's ordinal reaches the threshold's.
    pub fn display_record(&self, level: &str) -> (r: bool)
        ensures
            r == displayed_spec(self@.level, level@),
    {
        let lv = str_to_chars(self.level.as_str());
        let rec_ord = level_ordinal_chars(&lv);
        let th_ord = threshold_ordinal(level);
        rec_ord >= th_ord
    }
}

/// The output owed for one input line: a record's display line when it
/// decodes and reaches the threshold; nothing when it decodes and falls
/// under the threshold; and for a line that does not decode, the line
/// itself, unchanged, newline terminated, unless strict mode drops it.
pub open spec fn processed_line(
    line: Seq<char>,
    threshold: Seq<char>,
    strict: bool,
    color: bool,
) -> Option<Seq<char>> {
    match spec_decode_line(line) {
        None => if strict {
            None
        } else {
            Some(line + "\n"@)
        },
        Some(m) => if displayed_spec(m.level, threshold) {
            Some(rendered_record(m, color))
        } else {
            None
        },
    }
}

/// Process one input line under a threshold, strictness and color choice.
pub fn process_line(line: &str, threshold: &str, strict: bool, color: bool) -> (r: Option<String>)
    ensures
        match r {
            Some(out) => processed_line(line@, threshold@, strict, color) == Some(out@),
            None => processed_line(line@, threshold@, strict, color) is None,
        },
{
    match decode_line(line) {
        None => {
            if strict {
                None
            } else {
                let mut out = str_to_chars(line);
                push_str_chars(&mut out, "\n");
                Some(chars_to_string(&out))
            }
        },
        Some(rec) => {
            if rec.display_record(threshold) {
                Some(rec.format(color))
            } else {
                None
            }
        },
    }
}

/// The per-line policy for a line that is not a record: echoed unchanged
/// with a newline in ordinary mode, suppressed entirely in strict mode.
pub proof fn law_malformed_line_policy(line: Seq<char>, threshold: Seq<char>, color: bool)
    requires
        spec_decode_line(line) is None,
    ensures
        processed_line(line, threshold, false, color) == Some(line + "\n"@),
        processed_line(line, threshold, true, color) is None,
{
}

} // verus!
