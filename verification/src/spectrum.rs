use vstd::prelude::*;

verus! {

/// Where a spectrum display gets its samples from: a software-defined
/// radio, or a file of captured points. Sample ingestion itself is a
/// collaborator's concern; the store only names the choices.
#[derive(Debug, Clone, Copy, PartialEq, Eq, Structural)]
pub enum SpectrumSource {
    HackRF,
    File,
}

impl SpectrumSource {
    /// Stable lower-case identifier of the source.
    pub fn as_str(&self) -> (r: &'static str)
        ensures
            *self is HackRF ==> r@ == "hackrf"@,
            *self is File ==> r@ == "file"@,
    {
        match self {
            SpectrumSource::HackRF => "hackrf",
            SpectrumSource::File => "file",
        }
    }

    /// Every selectable source, in display order.
    pub fn all() -> (r: Vec<SpectrumSource>)
        ensures
            r@.len() == 2,
            r@[0] == SpectrumSource::HackRF,
            r@[1] == SpectrumSource::File,
    {
        let mut sources: Vec<SpectrumSource> = Vec::new();
        sources.push(SpectrumSource::HackRF);
        sources.push(SpectrumSource::File);
        sources
    }
}

} // verus!
