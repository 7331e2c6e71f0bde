//! QR codes, for a phone to read off the screen.
use qrcodegen::QrCode as Symbol;
use qrcodegen::QrCodeEcc;
use vstd::prelude::*;

verus! {

/// A symbol of the `qrcodegen` crate.
#[verifier::external_type_specification]
#[verifier::external_body]
pub struct ExSymbol(Symbol);

/// The modules of a symbol, row by row from the top, dark ones `true`.
pub uninterp spec fn symbol_rows(symbol: Symbol) -> Seq<Seq<bool>>;

/// The rows of the symbol that `QrCode::encode_text` makes of a text at the lowest correction
/// level; none where the text is too long.
pub uninterp spec fn low_symbol(text: Seq<char>) -> Option<Seq<Seq<bool>>>;

/// A square of a side that a symbol can have.
pub open spec fn is_symbol(rows: Seq<Seq<bool>>) -> bool {
    &&& 21 <= rows.len() <= 177
    &&& forall|y: int| 0 <= y < rows.len() ==> (#[trigger] rows[y]).len() == rows.len()
}

/// `QrCode::encode_text` at the lowest correction level: a square of 21 to 177 modules a side.
/// It fails only on a text that is too long, and never on one of up to 738 characters.
#[verifier::external_body]
fn encode_low(text: &str) -> (r: Option<Symbol>)
    ensures
        match r {
            Some(symbol) => low_symbol(text@) == Some(symbol_rows(symbol)) && is_symbol(
                symbol_rows(symbol),
            ),
            None => low_symbol(text@) is None,
        },
        text@.len() <= 738 ==> r is Some,
{
    Symbol::encode_text(text, QrCodeEcc::Low).ok()
}

/// `QrCode::size`: how many modules a side has.
#[verifier::external_body]
fn symbol_size(symbol: &Symbol) -> (r: i32)
    ensures
        r == symbol_rows(*symbol).len(),
{
    symbol.size()
}

/// `QrCode::get_module`: whether a module is dark; none is outside the symbol.
#[verifier::external_body]
fn symbol_module(symbol: &Symbol, x: i32, y: i32) -> (r: bool)
    ensures
        r == (0 <= y < symbol_rows(*symbol).len() && 0 <= x < symbol_rows(*symbol)[y as int].len()
            && symbol_rows(*symbol)[y as int][x as int]),
{
    symbol.get_module(x, y)
}

/// A QR code as a square of dark and light modules.
#[derive(Debug, PartialEq, Eq)]
pub struct QrCode {
    pub size: usize,
    pub modules: Vec<bool>,
}

impl QrCode {
    /// All modules are there.
    pub open spec fn wf(&self) -> bool {
        &&& self.size <= 177
        &&& self.modules@.len() == self.size * self.size
    }

    /// Where a module stands in the list of all.
    pub open spec fn place(&self, x: int, y: int) -> int {
        y * self.size + x
    }

    /// The code shows these rows.
    pub open spec fn shows(&self, rows: Seq<Seq<bool>>) -> bool {
        &&& self.wf()
        &&& self.size == rows.len()
        &&& forall|x: int, y: int|
            0 <= x < self.size && 0 <= y < self.size ==> self.modules@[#[trigger] self.place(x, y)]
                == rows[y][x]
    }

    /// The code for a text; none where the text is too long.
    ///
    /// A screen does not get scuffed, so the lowest correction level:
    /// fewer modules, and each one bigger on a small display.
    pub fn encode(text: &str) -> (r: Option<QrCode>)
        ensures
            match r {
                Some(code) => low_symbol(text@) is Some && code.shows(low_symbol(text@)->0)
                    && is_symbol(low_symbol(text@)->0),
                None => low_symbol(text@) is None,
            },
            text@.len() <= 738 ==> r is Some,
    {
        match encode_low(text) {
            Some(symbol) => Some(QrCode::draw(&symbol)),
            None => None,
        }
    }

    /// The modules of a symbol, row by row.
    fn draw(symbol: &Symbol) -> (r: QrCode)
        requires
            is_symbol(symbol_rows(*symbol)),
        ensures
            r.shows(symbol_rows(*symbol)),
    {
        let ghost rows = symbol_rows(*symbol);
        let side = symbol_size(symbol);
        let size: usize = side as usize;
        let mut modules: Vec<bool> = Vec::new();
        let mut y: i32 = 0;
        while y < side
            invariant
                0 <= y <= side == size == rows.len(),
                size <= 177,
                rows == symbol_rows(*symbol),
                is_symbol(rows),
                modules@.len() == y * side,
                forall|a: int, b: int|
                    0 <= a < side && 0 <= b < y ==> modules@[#[trigger] (b * side + a)]
                        == rows[b][a],
            decreases side - y,
        {
            let mut x: i32 = 0;
            let ghost above = modules@;
            while x < side
                invariant
                    0 <= x <= side == size == rows.len(),
                    0 <= y < side,
                    size <= 177,
                    rows == symbol_rows(*symbol),
                    is_symbol(rows),
                    above.len() == y * side,
                    modules@.len() == y * side + x,
                    forall|k: int| 0 <= k < above.len() ==> modules@[k] == above[k],
                    forall|a: int|
                        0 <= a < x ==> modules@[#[trigger] (y * side + a)] == rows[y as int][a],
                decreases side - x,
            {
                assert(rows[y as int].len() == rows.len());
                let ghost before = modules@;
                modules.push(symbol_module(symbol, x, y));
                assert forall|a: int| 0 <= a < x + 1 implies modules@[#[trigger] (y * side + a)]
                    == rows[y as int][a] by {
                    if a < x {
                        assert(modules@[y * side + a] == before[y * side + a]);
                    }
                }
                x += 1;
            }
            assert((y + 1) * side == y * side + side) by (nonlinear_arith);
            assert forall|a: int, b: int| 0 <= a < side && 0 <= b < y + 1 implies modules@[
            #[trigger] (b * side + a)] == rows[b][a] by {
                if b < y {
                    assert(b * side + a < y * side) by (nonlinear_arith)
                        requires
                            0 <= a < side,
                            0 <= b < y,
                    ;
                    assert(0 <= b * side + a) by (nonlinear_arith)
                        requires
                            0 <= a < side,
                            0 <= b,
                    ;
                    assert(above[b * side + a] == rows[b][a]);
                } else {
                    assert(b == y);
                }
            }
            y += 1;
        }
        let r = QrCode { size, modules };
        assert forall|x: int, y: int| 0 <= x < r.size && 0 <= y < r.size implies r.modules@[
        #[trigger] r.place(x, y)] == rows[y][x] by {
            assert(r.place(x, y) == y * side + x);
        }
        r
    }

    /// Whether a module is dark.
    pub fn dark(&self, x: usize, y: usize) -> (r: bool)
        requires
            self.wf(),
            x < self.size,
            y < self.size,
        ensures
            r == self.modules@[self.place(x as int, y as int)],
    {
        assert(0 <= self.place(x as int, y as int) < self.size * self.size) by (nonlinear_arith)
            requires
                self.place(x as int, y as int) == y * self.size + x,
                x < self.size,
                y < self.size,
        ;
        assert(self.size * self.size <= 177 * 177) by (nonlinear_arith)
            requires
                self.size <= 177,
        ;
        assert(y * self.size <= self.size * self.size) by (nonlinear_arith)
            requires
                y < self.size,
        ;
        self.modules[y * self.size + x]
    }
}

} // verus!
