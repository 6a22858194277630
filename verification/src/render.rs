//! Building the display line for one cycle: a reading's line with the
//! temperature piece styled by severity, or an error line.
use vstd::prelude::*;
use vstd::string::*;

use crate::num::Decimal;
use crate::query::{message_of, QueryError};

verus! {

/// How a piece of the display line is styled.
#[derive(Clone, Copy, PartialEq, Eq, Structural, Debug)]
pub enum Style {
    Plain,
    Warning,
}

/// One reading, recomputed every tick: the model name and the parsed
/// temperature and load.
#[derive(Debug)]
pub struct Reading {
    pub model: String,
    pub temperature: Decimal,
    pub load: Decimal,
}

impl Reading {
    /// Both numbers are canonical.
    pub open spec fn wf(self) -> bool {
        self.temperature.wf() && self.load.wf()
    }
}

/// A display line: the text around one optionally highlighted piece. The
/// terminal overwrites the previous line with prefix, styled piece, suffix.
#[derive(Debug)]
pub struct RenderedLine {
    pub prefix: String,
    pub styled: String,
    pub style: Style,
    pub suffix: String,
}

impl RenderedLine {
    /// The line's full text, styling aside.
    pub open spec fn text_of(self) -> Seq<char> {
        self.prefix@ + self.styled@ + self.suffix@
    }

    /// The line's full text, styling aside.
    pub fn text(&self) -> (r: String)
        ensures
            r@ == self.text_of(),
    {
        let mut out = self.prefix.clone();
        out.append(self.styled.as_str());
        out.append(self.suffix.as_str());
        proof {
            assert(out@ =~= self.text_of());
        }
        out
    }
}

/// A reading's line. The temperature piece is highlighted as a warning
/// exactly when the temperature is strictly greater than seventy degrees;
/// at or below seventy (the boundary included) it stays plain.
pub fn render_reading(reading: &Reading) -> (line: RenderedLine)
    requires
        reading.wf(),
    ensures
        line.prefix@ == "GPU: "@ + reading.model@ + " Temperature: "@,
        line.styled@ == reading.temperature.text(),
        line.style == (if reading.temperature.gt_seventy() {
            Style::Warning
        } else {
            Style::Plain
        }),
        line.suffix@ == " °C, Load: "@ + reading.load.text() + "%"@,
        line.text_of() == "GPU: "@ + reading.model@ + " Temperature: "@
            + reading.temperature.text() + " °C, Load: "@ + reading.load.text() + "%"@,
{
    let mut prefix = String::from_str("GPU: ");
    prefix.append(reading.model.as_str());
    prefix.append(" Temperature: ");
    let styled = reading.temperature.to_text();
    let style = if reading.temperature.is_gt_seventy() {
        Style::Warning
    } else {
        Style::Plain
    };
    let mut suffix = String::from_str(" °C, Load: ");
    suffix.append(reading.load.to_text().as_str());
    suffix.append("%");
    let line = RenderedLine { prefix, styled, style, suffix };
    proof {
        assert(line.prefix@ =~= "GPU: "@ + reading.model@ + " Temperature: "@);
        assert(line.suffix@ =~= " °C, Load: "@ + reading.load.text() + "%"@);
        assert(line.text_of() =~= "GPU: "@ + reading.model@ + " Temperature: "@
            + reading.temperature.text() + " °C, Load: "@ + reading.load.text() + "%"@);
    }
    line
}

/// An error line: the error's message behind "Error: ", all plain.
pub fn render_error(e: &QueryError) -> (line: RenderedLine)
    ensures
        line.prefix@ == "Error: "@ + message_of(*e),
        line.styled@ == Seq::<char>::empty(),
        line.style == Style::Plain,
        line.suffix@ == Seq::<char>::empty(),
        line.text_of() == "Error: "@ + message_of(*e),
{
    let mut prefix = String::from_str("Error: ");
    prefix.append(e.message().as_str());
    let line = RenderedLine {
        prefix,
        styled: String::new(),
        style: Style::Plain,
        suffix: String::new(),
    };
    proof {
        assert(line.prefix@ =~= "Error: "@ + message_of(*e));
        assert(line.text_of() =~= "Error: "@ + message_of(*e));
    }
    line
}

} // verus!
