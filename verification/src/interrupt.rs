use vstd::prelude::*;

verus! {

/// The devices that can interrupt the cpu.
#[derive(Debug, Clone, Copy, PartialEq, Eq, Structural)]
pub enum Source {
    Vip,
    Communication,
    GamePak,
    TimerZero,
    GamePad,
}

/// The interrupt sources, highest priority first; a scan takes the first match.
pub open spec fn sources_spec() -> Seq<Source> {
    seq![Source::Vip, Source::Communication, Source::GamePak, Source::TimerZero, Source::GamePad]
}

/// The interrupt sources in priority order, highest first.
pub fn sources() -> (r: [Source; 5])
    ensures
        r@ == sources_spec(),
{
    let r = [Source::Vip, Source::Communication, Source::GamePak, Source::TimerZero, Source::GamePad];
    assert(r@ =~= sources_spec());
    r
}

impl Source {
    pub open spec fn code_spec(self) -> u16 {
        match self {
            Source::Vip => 0xFE40,
            Source::Communication => 0xFE30,
            Source::GamePak => 0xFE20,
            Source::TimerZero => 0xFE10,
            Source::GamePad => 0xFE00,
        }
    }

    pub open spec fn level_spec(self) -> u32 {
        match self {
            Source::Vip => 4,
            Source::Communication => 3,
            Source::GamePak => 2,
            Source::TimerZero => 1,
            Source::GamePad => 0,
        }
    }

    /// The exception code the source reports.
    pub fn code(self) -> (r: u16)
        ensures
            r == self.code_spec(),
    {
        match self {
            Source::Vip => 0xFE40,
            Source::Communication => 0xFE30,
            Source::GamePak => 0xFE20,
            Source::TimerZero => 0xFE10,
            Source::GamePad => 0xFE00,
        }
    }

    /// The interrupt level of the source.
    pub fn level(self) -> (r: u32)
        ensures
            r == self.level_spec(),
    {
        match self {
            Source::Vip => 4,
            Source::Communication => 3,
            Source::GamePak => 2,
            Source::TimerZero => 1,
            Source::GamePad => 0,
        }
    }

    /// The handler address: the code in the low half of the top page.
    pub fn handler(self) -> (r: u32)
        ensures
            r == 0xFFFF_0000 + self.code_spec(),
    {
        0xFFFF_0000 + self.code() as u32
    }

    /// A short human-readable name of the source.
    pub fn name(self) -> (r: &'static str)
        ensures
            r@ == match self {
                Source::Vip => "vip"@,
                Source::Communication => "communication"@,
                Source::GamePak => "game pak"@,
                Source::TimerZero => "timer zero"@,
                Source::GamePad => "game pad"@,
            },
    {
        match self {
            Source::Vip => "vip",
            Source::Communication => "communication",
            Source::GamePak => "game pak",
            Source::TimerZero => "timer zero",
            Source::GamePad => "game pad",
        }
    }
}

/// The scan order descends strictly by level, so the first raised source is the most urgent.
pub proof fn lemma_sources_descend_by_level(i: int, j: int)
    requires
        0 <= i < j < 5,
    ensures
        sources_spec()[i].level_spec() > sources_spec()[j].level_spec(),
{
}

/// Handler addresses are distinct across sources.
pub proof fn lemma_handlers_distinct(a: Source, b: Source)
    requires
        a != b,
    ensures
        a.code_spec() != b.code_spec(),
{
}

} // verus!
