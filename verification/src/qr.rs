//! QR codes: encode text into a module matrix and draw it as SVG.
//!
//! Byte mode (UTF-8), versions 1 to 40, all four error correction levels,
//! and the mask with the lowest penalty score. The output is deterministic:
//! the same text and level always give the same matrix and the same SVG.
//!
//! This module stands on its own; it does not use the chart specification.

use vstd::prelude::*;
use vstd::string::StringSliceAdditionalSpecFns;

pub mod canvas;
pub mod capacity;
pub mod codewords;

use crate::digits::{decimal, push_decimal};
use crate::render::{lemma_occurs_in_concat, lemma_occurs_in_itself, occurs_in};
use canvas::{draw_symbol, symbol};
use capacity::{
    fits, lemma_capacity_by_level, lemma_capacity_monotonic, lemma_version_facts, level_rank,
    max_bytes, max_bytes_spec,
};
use codewords::{add_error_correction, codewords_with_ecc, data_codewords, data_codewords_spec};

verus! {

/// How much of the code may be damaged and still be read.
#[derive(Debug, Clone, Copy, PartialEq, Eq, Structural)]
pub enum ErrorCorrection {
    /// About 7 %.
    Low,
    /// About 15 %.
    Medium,
    /// About 25 %.
    Quartile,
    /// About 30 %.
    High,
}

impl Default for ErrorCorrection {
    /// `Medium`.
    fn default() -> (level: Self)
        ensures
            level == ErrorCorrection::Medium,
    {
        ErrorCorrection::Medium
    }
}

impl ErrorCorrection {
    /// The two level bits of the format information.
    pub open spec fn spec_format_bits(self) -> u32 {
        match self {
            ErrorCorrection::Low => 1,
            ErrorCorrection::Medium => 0,
            ErrorCorrection::Quartile => 3,
            ErrorCorrection::High => 2,
        }
    }

    fn format_bits(self) -> (bits: u32)
        ensures
            bits == self.spec_format_bits(),
    {
        match self {
            ErrorCorrection::Low => 1,
            ErrorCorrection::Medium => 0,
            ErrorCorrection::Quartile => 3,
            ErrorCorrection::High => 2,
        }
    }
}

/// The data does not fit into the largest QR code (version 40) at the
/// requested error correction level.
#[derive(Debug, Clone, PartialEq, Eq, Structural)]
pub struct DataTooLong {
    /// Length of the data in bytes.
    pub bytes: usize,
    /// Largest length that fits at this level.
    pub max_bytes: usize,
}

impl DataTooLong {
    /// The error as a sentence: how many bytes were given and how many fit.
    pub fn to_string(&self) -> (text: String)
        ensures
            text@ == decimal(self.bytes as int)
                + " bytes do not fit into a QR code at this error correction level (at most "@
                + decimal(self.max_bytes as int) + ")"@,
    {
        let mut text = String::new();
        push_decimal(&mut text, self.bytes);
        text.append(" bytes do not fit into a QR code at this error correction level (at most ");
        push_decimal(&mut text, self.max_bytes);
        text.append(")");
        assert(text@ =~= decimal(self.bytes as int)
            + " bytes do not fit into a QR code at this error correction level (at most "@
            + decimal(self.max_bytes as int) + ")"@);
        text
    }
}



/// A character as it appears in the text of the SVG.
pub open spec fn escape_char(c: char) -> Seq<char> {
    if c == '&' {
        "&amp;"@
    } else if c == '<' {
        "&lt;"@
    } else if c == '>' {
        "&gt;"@
    } else if c == '"' {
        "&quot;"@
    } else {
        seq![c]
    }
}

/// Text with `&`, `<`, `>` and `"` replaced by entity references.
pub open spec fn escaped(text: Seq<char>) -> Seq<char>
    decreases text.len(),
{
    if text.len() == 0 {
        seq![]
    } else {
        escaped(text.drop_last()) + escape_char(text.last())
    }
}

fn escape(text: &str) -> (out: String)
    ensures
        out@ == escaped(text@),
{
    let mut out = String::new();
    let length = text.unicode_len();
    let mut i: usize = 0;
    while i < length
        invariant
            length == text@.len(),
            i <= length,
            out@ == escaped(text@.take(i as int)),
        decreases length - i,
    {
        let c = text.get_char(i);
        assert(text@.take(i + 1).drop_last() =~= text@.take(i as int));
        if c == '&' {
            out.append("&amp;");
        } else if c == '<' {
            out.append("&lt;");
        } else if c == '>' {
            out.append("&gt;");
        } else if c == '"' {
            out.append("&quot;");
        } else {
            let single = text.substring_char(i, i + 1);
            assert(single@ =~= seq![c]);
            out.append(single);
        }
        i += 1;
    }
    assert(text@.take(length as int) =~= text@);
    out
}

/// The module matrix of `data` in version `v` at `level`: data codewords,
/// error correction, function patterns and the mask with the lowest penalty.
pub open spec fn encoded_symbol(data: Seq<u8>, v: int, level: ErrorCorrection) -> Seq<bool> {
    symbol(
        v * 4 + 17,
        v,
        level.spec_format_bits(),
        codewords_with_ecc(data_codewords_spec(data, v, level), v, level),
    )
}

/// A finished QR code: `size` × `size` modules.
#[derive(Debug, PartialEq, Eq)]
pub struct QrCode {
    version: u8,
    size: usize,
    modules: Vec<bool>,
}

impl QrCode {
    #[verifier::type_invariant]
    spec fn well_formed(self) -> bool {
        &&& 1 <= self.version <= 40
        &&& self.size == self.version as int * 4 + 17
        &&& self.modules.len() == self.size * self.size
    }

    /// The version, 1 to 40.
    pub closed spec fn spec_version(self) -> int {
        self.version as int
    }

    /// Modules per side.
    pub closed spec fn spec_size(self) -> int {
        self.size as int
    }

    /// The modules row by row, dark as `true`.
    pub closed spec fn spec_modules(self) -> Seq<bool> {
        self.modules@
    }

    /// Whether the module in column `x`, row `y` is dark; false outside the code.
    pub open spec fn spec_is_dark(self, x: int, y: int) -> bool {
        0 <= x < self.spec_size() && 0 <= y < self.spec_size() && self.spec_modules()[y
            * self.spec_size() + x]
    }


    /// End of the run of dark modules in row `y` that starts at `x`.
    pub open spec fn run_end(self, x: int, y: int) -> int
        decreases self.spec_size() - x,
    {
        if 0 <= x < self.spec_size() && self.spec_is_dark(x, y) {
            self.run_end(x + 1, y)
        } else {
            x
        }
    }

    pub proof fn lemma_run_end(self, x: int, y: int)
        requires
            0 <= x,
        ensures
            self.run_end(x, y) >= x,
            x < self.spec_size() && self.spec_is_dark(x, y) ==> self.run_end(x, y) > x,
            self.run_end(x, y) <= self.spec_size() || self.run_end(x, y) == x,
            forall|t: int| x <= t < self.run_end(x, y) ==> self.spec_is_dark(t, y),
            !(self.run_end(x, y) < self.spec_size() && self.spec_is_dark(self.run_end(x, y), y)),
        decreases self.spec_size() - x,
    {
        if 0 <= x < self.spec_size() && self.spec_is_dark(x, y) {
            self.lemma_run_end(x + 1, y);
        }
    }

    /// Path commands for the dark runs of row `y` from column `x` on: one
    /// rectangle of height 1 per run, shifted by the quiet zone.
    pub open spec fn row_path(self, x: int, y: int, quiet: int) -> Seq<char>
        decreases self.spec_size() - x,
    {
        if x < 0 || x >= self.spec_size() {
            seq![]
        } else if !self.spec_is_dark(x, y) {
            self.row_path(x + 1, y, quiet)
        } else {
            let end = self.run_end(x, y);
            let length = end - x;
            proof {
                self.lemma_run_end(x, y);
            }
            if end <= x {
                seq![]
            } else {
                "M"@ + decimal(x + quiet) + ","@ + decimal(y + quiet) + "h"@ + decimal(length)
                    + "v1h-"@ + decimal(length) + "z"@ + self.row_path(end, y, quiet)
            }
        }
    }

    /// Path commands of the first `rows` rows.
    pub open spec fn path_rows(self, rows: int, quiet: int) -> Seq<char>
        decreases rows,
    {
        if rows <= 0 {
            seq![]
        } else {
            self.path_rows(rows - 1, quiet) + self.row_path(0, rows - 1, quiet)
        }
    }

    /// The SVG document of the code, with `title` as its accessible name.
    pub open spec fn svg(self, title: Seq<char>, quiet: int) -> Seq<char> {
        let side = self.spec_size() + 2 * quiet;
        "<svg xmlns=\"http://www.w3.org/2000/svg\" viewBox=\"0 0 "@ + decimal(side) + " "@
            + decimal(side) + "\" width=\""@ + decimal(side * 4) + "\" height=\""@ + decimal(
            side * 4,
        ) + "\" role=\"img\" shape-rendering=\"crispEdges\"><title>"@ + escaped(title)
            + "</title><rect width=\""@ + decimal(side) + "\" height=\""@ + decimal(side)
            + "\" fill=\"#fff\"/><path d=\""@ + self.path_rows(self.spec_size(), quiet)
            + "\" fill=\"#000\"/></svg>"@
    }

    /// The code as SVG: dark modules on a light background with a quiet
    /// zone of `quiet_zone` modules on every side, one unit per module,
    /// `role="img"` with `title` as its accessible name.
    pub fn to_svg(&self, title: &str, quiet_zone: usize) -> (svg: String)
        requires
            (self.spec_size() + 2 * quiet_zone) * 4 <= usize::MAX,
        ensures
            svg@ == self.svg(title@, quiet_zone as int),
    {
        proof {
            use_type_invariant(self);
        }
        let size = self.size;
        let side = size + 2 * quiet_zone;
        let mut path = String::new();
        let mut y: usize = 0;
        while y < size
            invariant
                size == self.spec_size(),
                side == size + 2 * quiet_zone,
                side * 4 <= usize::MAX,
                y <= size,
                path@ == self.path_rows(y as int, quiet_zone as int),
            decreases size - y,
        {
            let ghost row_start = path@;
            let mut x: usize = 0;
            while x < size
                invariant
                    size == self.spec_size(),
                    side == size + 2 * quiet_zone,
                    side * 4 <= usize::MAX,
                    y < size,
                    x <= size,
                    row_start + self.row_path(0, y as int, quiet_zone as int) == path@
                        + self.row_path(x as int, y as int, quiet_zone as int),
                decreases size - x,
            {
                if !self.is_dark(x, y) {
                    x += 1;
                    continue;
                }
                let start = x;
                proof {
                    self.lemma_run_end(start as int, y as int);
                }
                while x < size && self.is_dark(x, y)
                    invariant
                        size == self.spec_size(),
                        start < x <= size || (start == x && x < size),
                        self.run_end(x as int, y as int) == self.run_end(start as int, y as int),
                    decreases size - x,
                {
                    x += 1;
                }
                let length = x - start;
                path.append("M");
                push_decimal(&mut path, start + quiet_zone);
                path.append(",");
                push_decimal(&mut path, y + quiet_zone);
                path.append("h");
                push_decimal(&mut path, length);
                path.append("v1h-");
                push_decimal(&mut path, length);
                path.append("z");
            }
            y += 1;
        }
        let mut svg = String::new();
        svg.append("<svg xmlns=\"http://www.w3.org/2000/svg\" viewBox=\"0 0 ");
        push_decimal(&mut svg, side);
        svg.append(" ");
        push_decimal(&mut svg, side);
        svg.append("\" width=\"");
        push_decimal(&mut svg, side * 4);
        svg.append("\" height=\"");
        push_decimal(&mut svg, side * 4);
        svg.append("\" role=\"img\" shape-rendering=\"crispEdges\"><title>");
        let escaped_title = escape(title);
        svg.append(escaped_title.as_str());
        svg.append("</title><rect width=\"");
        push_decimal(&mut svg, side);
        svg.append("\" height=\"");
        push_decimal(&mut svg, side);
        svg.append("\" fill=\"#fff\"/><path d=\"");
        svg.append(path.as_str());
        svg.append("\" fill=\"#000\"/></svg>");
        svg
    }

    /// Whether `self` is the QR code of `data` at `level`: the smallest
    /// version that fits, and the matrix of that version.
    pub open spec fn encodes(self, data: Seq<u8>, level: ErrorCorrection) -> bool {
        &&& 1 <= self.spec_version() <= 40
        &&& fits(data.len() as int, self.spec_version(), level)
        &&& forall|w: int| 1 <= w < self.spec_version() ==> !fits(data.len() as int, w, level)
        &&& self.spec_size() == self.spec_version() * 4 + 17
        &&& self.spec_modules() == encoded_symbol(data, self.spec_version(), level)
    }

    /// Encodes `text` as UTF-8 bytes in the smallest version that fits.
    ///
    /// # Errors
    ///
    /// Returns [`DataTooLong`] when the text does not fit into version 40.
    pub fn encode(text: &str, level: ErrorCorrection) -> (result: Result<Self, DataTooLong>)
        ensures
            match result {
                Ok(code) => code.encodes(text.spec_bytes(), level),
                Err(error) => error == DataTooLong {
                    bytes: text.spec_bytes().len() as usize,
                    max_bytes: max_bytes_spec(40, level) as usize,
                },
            },
            result is Ok <==> fits(text.spec_bytes().len() as int, 40, level),
    {
        Self::encode_bytes(text.as_bytes(), level)
    }

    /// Encodes raw bytes in the smallest version that fits.
    ///
    /// # Errors
    ///
    /// Returns [`DataTooLong`] when the data does not fit into version 40.
    pub fn encode_bytes(data: &[u8], level: ErrorCorrection) -> (result: Result<Self, DataTooLong>)
        ensures
            match result {
                Ok(code) => code.encodes(data@, level),
                Err(error) => error == DataTooLong {
                    bytes: data@.len() as usize,
                    max_bytes: max_bytes_spec(40, level) as usize,
                },
            },
            result is Ok <==> fits(data@.len() as int, 40, level),
    {
        let mut version: u8 = 1;
        loop
            invariant
                1 <= version <= 40,
                forall|w: int| 1 <= w < version ==> !fits(data@.len() as int, w, level),
            ensures
                1 <= version <= 40,
                fits(data@.len() as int, version as int, level),
                forall|w: int| 1 <= w < version ==> !fits(data@.len() as int, w, level),
            decreases 40 - version,
        {
            if data.len() <= max_bytes(version, level) {
                break;
            }
            if version == 40 {
                return Err(DataTooLong { bytes: data.len(), max_bytes: max_bytes(40, level) });
            }
            version += 1;
        }
        proof {
            lemma_capacity_monotonic(level, version as int, 40);
            lemma_version_facts(version as int, level);
        }
        let data_words = data_codewords(data, version, level);
        let codewords = add_error_correction(&data_words, version, level);
        Ok(Self::draw(version, level, &codewords))
    }

    /// Places the function patterns and the codewords, then applies the
    /// mask with the lowest penalty.
    fn draw(version: u8, level: ErrorCorrection, codewords: &[u8]) -> (code: Self)
        requires
            1 <= version <= 40,
            codewords.len() <= 4096,
        ensures
            code.spec_version() == version,
            code.spec_size() == version * 4 + 17,
            code.spec_modules() == symbol(
                version as int * 4 + 17,
                version as int,
                level.spec_format_bits(),
                codewords@,
            ),
    {
        let size = version as usize * 4 + 17;
        let modules = draw_symbol(version, level.format_bits(), codewords);
        QrCode { version, size, modules }
    }

    /// The version, 1 to 40.
    pub fn version(&self) -> (version: u8)
        ensures
            version == self.spec_version(),
            1 <= version <= 40,
    {
        proof {
            use_type_invariant(self);
        }
        self.version
    }

    /// Modules per side: 17 + 4 × version.
    pub fn size(&self) -> (size: usize)
        ensures
            size == self.spec_size(),
            size == self.spec_version() * 4 + 17,
    {
        proof {
            use_type_invariant(self);
        }
        self.size
    }

    /// Whether the module in column `x`, row `y` is dark; false outside the code.
    pub fn is_dark(&self, x: usize, y: usize) -> (dark: bool)
        ensures
            dark == self.spec_is_dark(x as int, y as int),
    {
        proof {
            use_type_invariant(self);
        }
        if x < self.size && y < self.size {
            proof {
                canvas::lemma_index(x as int, y as int, self.size as int);
            }
            self.modules[y * self.size + x]
        } else {
            false
        }
    }
}

/// The QR code of given data at a given level is unique: two codes that
/// both encode it have the same version, size and modules. Encoding the
/// same input twice therefore gives the same code, and the same SVG.
pub proof fn lemma_encoding_is_unique(a: QrCode, b: QrCode, data: Seq<u8>, level: ErrorCorrection)
    requires
        a.encodes(data, level),
        b.encodes(data, level),
    ensures
        a.spec_version() == b.spec_version(),
        a.spec_size() == b.spec_size(),
        a.spec_modules() == b.spec_modules(),
{
    if a.spec_version() < b.spec_version() {
        assert(!fits(data.len() as int, a.spec_version(), level));
    }
    if b.spec_version() < a.spec_version() {
        assert(!fits(data.len() as int, b.spec_version(), level));
    }
}

/// A higher error correction level never gives a smaller code: data that
/// fits at a level fits at every lower one, and the lower level's code is
/// no larger.
pub proof fn lemma_higher_level_not_smaller(
    data: Seq<u8>,
    lower: ErrorCorrection,
    higher: ErrorCorrection,
    lower_code: QrCode,
    higher_code: QrCode,
)
    requires
        level_rank(lower) <= level_rank(higher),
        fits(data.len() as int, 40, higher),
    ensures
        fits(data.len() as int, 40, lower),
        lower_code.encodes(data, lower) && higher_code.encodes(data, higher)
            ==> lower_code.spec_version() <= higher_code.spec_version(),
{
    lemma_capacity_by_level(40, lower, higher);
    if lower_code.encodes(data, lower) && higher_code.encodes(data, higher) {
        let v = higher_code.spec_version();
        lemma_capacity_by_level(v, lower, higher);
        if v < lower_code.spec_version() {
            assert(!fits(data.len() as int, v, lower));
        }
    }
}

/// The path commands of the run of dark modules that starts at column `x`
/// of row `y`, drawn inside a quiet zone of `quiet` modules.
pub open spec fn run_rectangle(x: int, y: int, length: int, quiet: int) -> Seq<char> {
    let left = x + quiet;
    let top = y + quiet;
    "M"@ + decimal(left) + ","@ + decimal(top) + "h"@ + decimal(length) + "v1h-"@ + decimal(length)
        + "z"@
}

impl QrCode {
    proof fn lemma_row_path_holds_run(self, x0: int, x: int, y: int, quiet: int)
        requires
            0 <= x0 <= x < self.spec_size(),
            0 <= quiet,
            self.spec_is_dark(x, y),
            x == 0 || !self.spec_is_dark(x - 1, y),
        ensures
            occurs_in(
                run_rectangle(x, y, self.run_end(x, y) - x, quiet),
                self.row_path(x0, y, quiet),
            ),
        decreases x - x0,
    {
        self.lemma_run_end(x0, y);
        if x0 == x {
            let rectangle = run_rectangle(x, y, self.run_end(x, y) - x, quiet);
            lemma_occurs_in_itself(rectangle);
            lemma_occurs_in_concat(rectangle, rectangle, self.row_path(self.run_end(x, y), y, quiet));
            assert(self.row_path(x, y, quiet) =~= rectangle + self.row_path(self.run_end(x, y), y, quiet));
        } else if !self.spec_is_dark(x0, y) {
            self.lemma_row_path_holds_run(x0 + 1, x, y, quiet);
        } else {
            let end = self.run_end(x0, y);
            if end > x {
                assert(self.spec_is_dark(x - 1, y));
            }
            if end == x {
                assert(!self.spec_is_dark(end, y));
            }
            self.lemma_row_path_holds_run(end, x, y, quiet);
            let first = run_rectangle(x0, y, end - x0, quiet);
            assert(self.row_path(x0, y, quiet) =~= first + self.row_path(end, y, quiet));
            lemma_occurs_in_concat(
                run_rectangle(x, y, self.run_end(x, y) - x, quiet),
                first,
                self.row_path(end, y, quiet),
            );
        }
    }

    proof fn lemma_rows_hold_row(self, rows: int, y: int, quiet: int, part: Seq<char>)
        requires
            0 <= y < rows,
            occurs_in(part, self.row_path(0, y, quiet)),
        ensures
            occurs_in(part, self.path_rows(rows, quiet)),
        decreases rows,
    {
        if y < rows - 1 {
            self.lemma_rows_hold_row(rows - 1, y, quiet, part);
        }
        lemma_occurs_in_concat(part, self.path_rows(rows - 1, quiet), self.row_path(0, rows - 1, quiet));
    }

    /// The SVG draws every module where it belongs: each run of dark
    /// modules of row `y` starting at column `x` is one rectangle of height
    /// one at (`x + quiet`, `y + quiet`), inside the quiet zone, as long as
    /// the run.
    pub proof fn lemma_svg_draws_every_run(self, title: Seq<char>, quiet: int, x: int, y: int)
        requires
            0 <= quiet,
            0 <= x < self.spec_size(),
            0 <= y < self.spec_size(),
            self.spec_is_dark(x, y),
            x == 0 || !self.spec_is_dark(x - 1, y),
        ensures
            self.run_end(x, y) > x,
            forall|t: int| x <= t < self.run_end(x, y) ==> self.spec_is_dark(t, y),
            self.run_end(x, y) == self.spec_size() || !self.spec_is_dark(self.run_end(x, y), y),
            occurs_in(run_rectangle(x, y, self.run_end(x, y) - x, quiet), self.svg(title, quiet)),
    {
        self.lemma_run_end(x, y);
        let rectangle = run_rectangle(x, y, self.run_end(x, y) - x, quiet);
        self.lemma_row_path_holds_run(0, x, y, quiet);
        self.lemma_rows_hold_row(self.spec_size(), y, quiet, rectangle);
        let side = self.spec_size() + 2 * quiet;
        let head = "<svg xmlns=\"http://www.w3.org/2000/svg\" viewBox=\"0 0 "@ + decimal(side) + " "@
            + decimal(side) + "\" width=\""@ + decimal(side * 4) + "\" height=\""@ + decimal(
            side * 4,
        ) + "\" role=\"img\" shape-rendering=\"crispEdges\"><title>"@ + escaped(title)
            + "</title><rect width=\""@ + decimal(side) + "\" height=\""@ + decimal(side)
            + "\" fill=\"#fff\"/><path d=\""@;
        let path = self.path_rows(self.spec_size(), quiet);
        lemma_occurs_in_concat(rectangle, head, path);
        lemma_occurs_in_concat(rectangle, head + path, "\" fill=\"#000\"/></svg>"@);
    }
}

} // verus!
