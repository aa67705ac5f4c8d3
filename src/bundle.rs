use vstd::prelude::*;
use crate::graph::Point;
use crate::window::{HISTORY_LEN, LoadStorage, idle_window, pushed};

verus! {

/// The two text sizes of the dashboard.
#[derive(Clone, Copy, Debug, PartialEq, Eq, Structural)]
pub enum Font {
    /// 8 by 16 pixel glyphs.
    Large,
    /// 6 by 8 pixel glyphs.
    Normal,
}

/// A piece of text to draw with its top left corner at `at`.
#[derive(Clone, Debug, PartialEq, Eq)]
pub struct Label {
    pub text: String,
    pub at: Point,
    pub font: Font,
}

/// `label` shows `text` at `(x, y)` in `font`.
pub open spec fn shows(label: Label, text: Seq<char>, x: i32, y: i32, font: Font) -> bool {
    &&& label.text@ == text
    &&& label.at == Point { x, y }
    &&& label.font == font
}

/// The latest readings of the machine, as the dashboard shows them, with the
/// history of its CPU utilization.
pub struct InfoBundle {
    pub hostname: String,
    pub temperature: String,
    pub fan_level: String,
    pub loadavg: String,
    pub cpu_load: LoadStorage,
}

impl InfoBundle {
    pub open spec fn wf(&self) -> bool {
        self.cpu_load.wf()
    }

    /// A bundle for the machine `hostname`, before any reading: placeholder
    /// texts and an idle history.
    pub fn new(hostname: String) -> (r: Self)
        ensures
            r.wf(),
            r.hostname == hostname,
            r.temperature@ == "0"@,
            r.fan_level@ == "0.0°C"@,
            r.loadavg@ == "0.0"@,
            r.cpu_load@ == idle_window(HISTORY_LEN as nat),
    {
        InfoBundle {
            hostname,
            temperature: "0".to_owned(),
            fan_level: "0.0°C".to_owned(),
            loadavg: "0.0".to_owned(),
            cpu_load: LoadStorage::new(HISTORY_LEN),
        }
    }

    /// Takes in one round of readings: the texts replace the old ones and the
    /// utilization sample joins the history.
    pub fn update(&mut self, temperature: String, fan_level: String, loadavg: String, cpu_load: u32)
        requires
            old(self).wf(),
        ensures
            final(self).wf(),
            final(self).hostname == old(self).hostname,
            final(self).temperature == temperature,
            final(self).fan_level == fan_level,
            final(self).loadavg == loadavg,
            final(self).cpu_load@ == pushed(old(self).cpu_load@, cpu_load),
    {
        self.temperature = temperature;
        self.fan_level = fan_level;
        self.loadavg = loadavg;
        self.cpu_load.push(cpu_load);
    }

    /// The dashboard's texts: the host name in large type at the top left,
    /// the temperature and fan level under their captions down the left
    /// side, and the load average at the top right.
    pub fn labels(&self) -> (r: Vec<Label>)
        ensures
            r@.len() == 6,
            shows(r@[0], self.hostname@, 0, 0, Font::Large),
            shows(r@[1], "temp:"@, 0, 18, Font::Normal),
            shows(r@[2], self.temperature@, 6, 28, Font::Normal),
            shows(r@[3], "f-lvl:"@, 0, 39, Font::Normal),
            shows(r@[4], self.fan_level@, 6, 50, Font::Normal),
            shows(r@[5], self.loadavg@, 100, 8, Font::Normal),
    {
        let mut r: Vec<Label> = Vec::new();
        r.push(Label { text: self.hostname.clone(), at: Point { x: 0, y: 0 }, font: Font::Large });
        r.push(Label { text: "temp:".to_owned(), at: Point { x: 0, y: 18 }, font: Font::Normal });
        r.push(
            Label { text: self.temperature.clone(), at: Point { x: 6, y: 28 }, font: Font::Normal },
        );
        r.push(Label { text: "f-lvl:".to_owned(), at: Point { x: 0, y: 39 }, font: Font::Normal });
        r.push(
            Label { text: self.fan_level.clone(), at: Point { x: 6, y: 50 }, font: Font::Normal },
        );
        r.push(
            Label { text: self.loadavg.clone(), at: Point { x: 100, y: 8 }, font: Font::Normal },
        );
        r
    }
}

} // verus!
