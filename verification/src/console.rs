//! The print sink.

use vstd::prelude::*;

verus! {

/// The print sink of the interpreter. Output always accumulates in the
/// buffer; the flag records whether the embedding shell should drain the
/// buffer to its console after each line.
pub struct LoxPrinter {
    buffer: String,
    to_console: bool,
}

impl View for LoxPrinter {
    type V = Seq<char>;

    closed spec fn view(&self) -> Seq<char> {
        self.buffer@
    }
}

impl LoxPrinter {
    /// Whether the embedding shell drains this printer to its console.
    pub closed spec fn console_on(&self) -> bool {
        self.to_console
    }

    pub fn new() -> (r: LoxPrinter)
        ensures
            r@ == Seq::<char>::empty(),
            r.console_on(),
    {
        LoxPrinter { buffer: String::new(), to_console: true }
    }

    pub fn clear(&mut self)
        ensures
            final(self)@ == Seq::<char>::empty(),
            final(self).console_on() == old(self).console_on(),
    {
        self.buffer = String::new();
    }

    pub fn auto_to_console(&mut self, to_console: bool)
        ensures
            final(self)@ == old(self)@,
            final(self).console_on() == to_console,
    {
        self.to_console = to_console;
    }

    pub fn console_enabled(&self) -> (r: bool)
        ensures
            r == self.console_on(),
    {
        self.to_console
    }

    /// Appends the text to the buffered output.
    pub fn print(&mut self, msg: &str)
        ensures
            final(self)@ == old(self)@ + msg@,
            final(self).console_on() == old(self).console_on(),
    {
        self.buffer.append(msg);
    }

    /// Appends the text and a newline to the buffered output.
    pub fn println(&mut self, msg: &str)
        ensures
            final(self)@ == old(self)@ + msg@ + "\n"@,
            final(self).console_on() == old(self).console_on(),
    {
        self.buffer.append(msg);
        self.buffer.append("\n");
    }

    /// Hands the buffered output over and empties the buffer.
    pub fn take(&mut self) -> (r: String)
        ensures
            r@ == old(self)@,
            final(self)@ == Seq::<char>::empty(),
            final(self).console_on() == old(self).console_on(),
    {
        let ret = self.buffer.clone();
        self.buffer = String::new();
        ret
    }
}

} // verus!
