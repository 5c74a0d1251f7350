//! Extension-matched transformers: each one renames a file and rewrites
//! its byte stream, and an ordered chain of them is applied per file.
//! Steps that only this library's logic decides run here; steps that need
//! the outside transcoder are handed back as explicit jobs.
use vstd::prelude::*;
use vstd::string::StrSliceExecFns;
use vstd::string::StringExecFns;
use crate::error::LastLegendError;
use crate::scd::{decode_scd, spec_scd_output, ScdPayload, ScdPayloadView};
use crate::sqpath::SqPathBuf;
use crate::strutil::{is_suffix_of, str_ends_with, str_eq};

verus! {

/// Known transformations for the audio from `.scd` files.
#[derive(Debug, Clone, Copy)]
pub enum ScdAudioTransform {
    Wav,
    Ogg,
    Flac,
}

impl ScdAudioTransform {
    /// The file extension of this transformation's output.
    pub open spec fn spec_extension(self) -> Seq<char> {
        match self {
            ScdAudioTransform::Wav => "wav"@,
            ScdAudioTransform::Ogg => "ogg"@,
            ScdAudioTransform::Flac => "flac"@,
        }
    }

    /// The file extension of this transformation's output.
    pub fn extension_str(&self) -> (r: &'static str)
        ensures
            r@ == self.spec_extension(),
    {
        match self {
            ScdAudioTransform::Wav => "wav",
            ScdAudioTransform::Ogg => "ogg",
            ScdAudioTransform::Flac => "flac",
        }
    }
}

/// The two operations the outside transcoder performs.
#[derive(Copy, Clone, Eq, PartialEq, Structural, Debug)]
pub enum ExternalOp {
    /// Rewrap the stream into the named container format.
    Rewrap,
    /// Loop the stream using its embedded loop metadata, then fade out.
    LoopMeta,
}

/// One job for the outside transcoder: the operation, the target format,
/// and the input bytes.
#[derive(Debug)]
pub struct ExternalJob {
    pub op: ExternalOp,
    pub format: String,
    pub input: Vec<u8>,
}

/// What one transformer did with a file's bytes: finished them itself, or
/// handed a job back for the outside transcoder.
#[derive(Debug)]
pub enum TransformStep {
    Done(Vec<u8>),
    External(ExternalJob),
}

/// A transform step at the specification level.
pub enum TransformStepView {
    Done(Seq<u8>),
    External(ExternalOp, Seq<char>, Seq<u8>),
}

/// The step a [`TransformStep`] stands for.
pub open spec fn step_view(s: TransformStep) -> TransformStepView {
    match s {
        TransformStep::Done(v) => TransformStepView::Done(v@),
        TransformStep::External(j) => TransformStepView::External(j.op, j.format@, j.input@),
    }
}

/// What the SCD transformer yields for the decoded container, by target:
/// an OGG entry is done when OGG is wanted and rewrapped otherwise; an
/// MS-ADPCM entry is done as WAVE when WAV is wanted and rewrapped
/// otherwise. An OGG entry bound for WAV routes through FLAC.
pub open spec fn spec_scd_step(kind: ScdAudioTransform, d: Seq<u8>) -> Option<TransformStepView> {
    match spec_scd_output(d) {
        None => None,
        Some(out) => match out {
            ScdPayloadView::Ogg(v) => Some(
                match kind {
                    ScdAudioTransform::Ogg => TransformStepView::Done(v),
                    ScdAudioTransform::Wav => TransformStepView::External(
                        ExternalOp::Rewrap,
                        "flac"@,
                        v,
                    ),
                    ScdAudioTransform::Flac => TransformStepView::External(
                        ExternalOp::Rewrap,
                        "flac"@,
                        v,
                    ),
                },
            ),
            ScdPayloadView::Wav(w) => Some(
                match kind {
                    ScdAudioTransform::Ogg => TransformStepView::External(
                        ExternalOp::Rewrap,
                        "ogg"@,
                        w,
                    ),
                    ScdAudioTransform::Wav => TransformStepView::Done(w),
                    ScdAudioTransform::Flac => TransformStepView::External(
                        ExternalOp::Rewrap,
                        "flac"@,
                        w,
                    ),
                },
            ),
        },
    }
}

/// A file name with its last `strip` characters replaced by `ext`.
pub open spec fn spec_renamed_with(file: Seq<char>, strip: int, ext: Seq<char>) -> Seq<char> {
    file.take(file.len() - strip) + ext
}

/// Extract an audio file from the `.scd` container.
#[derive(Debug)]
pub struct ScdTf {
    pub audio_transform: ScdAudioTransform,
}

/// The SCD transformer bound to one file.
#[derive(Debug)]
pub struct ScdTfForFile {
    file: SqPathBuf,
    audio_transform: ScdAudioTransform,
}

impl ScdTf {
    /// If this transformer applies to the file, bind it to the file.
    pub fn maybe_for(&self, file: SqPathBuf) -> (r: Option<ScdTfForFile>)
        ensures
            r is Some <==> is_suffix_of(".scd"@, file@),
            r is Some ==> r->0.wf() && r->0.file_view() == file@ && r->0.kind()
                == self.audio_transform,
    {
        if str_ends_with(file.as_str(), ".scd") {
            Some(ScdTfForFile { file, audio_transform: self.audio_transform })
        } else {
            None
        }
    }
}

impl ScdTfForFile {
    /// The file this transformer is bound to.
    pub closed spec fn file_view(&self) -> Seq<char> {
        self.file@
    }

    /// The target of the transformation.
    pub closed spec fn kind(&self) -> ScdAudioTransform {
        self.audio_transform
    }

    /// The bound file really carries the matched extension.
    pub closed spec fn wf(&self) -> bool {
        is_suffix_of(".scd"@, self.file@)
    }

    /// The file name after the transformation: the `scd` extension
    /// becomes the target's.
    pub fn renamed_file(&self) -> (r: SqPathBuf)
        requires
            self.wf(),
        ensures
            r@ == spec_renamed_with(self.file_view(), 3, self.kind().spec_extension()),
    {
        let s = self.file.as_str();
        let n = s.unicode_len();
        proof {
            reveal_strlit(".scd");
        }
        let mut out = String::from_str(s.substring_char(0, n - 3));
        out.append(self.audio_transform.extension_str());
        SqPathBuf::new(out.as_str())
    }

    /// Decode the container and decide what is left to do; see
    /// [`spec_scd_step`].
    pub fn transform(&self, content: Vec<u8>) -> (r: Result<TransformStep, LastLegendError>)
        ensures
            match r {
                Ok(s) => spec_scd_step(self.kind(), content@) == Some(step_view(s)),
                Err(_) => spec_scd_step(self.kind(), content@) is None,
            },
    {
        let payload = match decode_scd(&content) {
            Ok(p) => p,
            Err(e) => {
                return Err(e);
            },
        };
        match payload {
            ScdPayload::Ogg(v) => match self.audio_transform {
                ScdAudioTransform::Ogg => Ok(TransformStep::Done(v)),
                ScdAudioTransform::Wav => Ok(
                    TransformStep::External(
                        ExternalJob {
                            op: ExternalOp::Rewrap,
                            format: String::from_str("flac"),
                            input: v,
                        },
                    ),
                ),
                ScdAudioTransform::Flac => Ok(
                    TransformStep::External(
                        ExternalJob {
                            op: ExternalOp::Rewrap,
                            format: String::from_str("flac"),
                            input: v,
                        },
                    ),
                ),
            },
            ScdPayload::Wav(w) => match self.audio_transform {
                ScdAudioTransform::Ogg => Ok(
                    TransformStep::External(
                        ExternalJob {
                            op: ExternalOp::Rewrap,
                            format: String::from_str("ogg"),
                            input: w,
                        },
                    ),
                ),
                ScdAudioTransform::Wav => Ok(TransformStep::Done(w)),
                ScdAudioTransform::Flac => Ok(
                    TransformStep::External(
                        ExternalJob {
                            op: ExternalOp::Rewrap,
                            format: String::from_str("flac"),
                            input: w,
                        },
                    ),
                ),
            },
        }
    }
}

/// Loop a file through the outside transcoder's metadata-driven loop.
#[derive(Debug)]
pub struct LoopFile {
    pub extension: String,
    pub ffmpeg_format: String,
}

/// The loop transformer bound to one file.
#[derive(Debug)]
pub struct LoopFileForFile {
    file: SqPathBuf,
    ffmpeg_format: String,
}

impl LoopFile {
    /// If the file carries this transformer's extension, bind it.
    pub fn maybe_for(&self, file: SqPathBuf) -> (r: Option<LoopFileForFile>)
        ensures
            r is Some <==> is_suffix_of(seq!['.'] + self.extension@, file@),
            r is Some ==> r->0.file_view() == file@ && r->0.format_view() == self.ffmpeg_format@,
    {
        let mut pattern = String::from_str(".");
        pattern.append(self.extension.as_str());
        proof {
            reveal_strlit(".");
            assert(pattern@ =~= seq!['.'] + self.extension@);
        }
        if str_ends_with(file.as_str(), pattern.as_str()) {
            Some(LoopFileForFile { file, ffmpeg_format: self.ffmpeg_format.clone() })
        } else {
            None
        }
    }
}

impl LoopFileForFile {
    /// The file this transformer is bound to.
    pub closed spec fn file_view(&self) -> Seq<char> {
        self.file@
    }

    /// The transcoder format used for the loop.
    pub closed spec fn format_view(&self) -> Seq<char> {
        self.ffmpeg_format@
    }

    /// Looping keeps the file name.
    pub fn renamed_file(&self) -> (r: SqPathBuf)
        ensures
            r@ == self.file_view(),
    {
        self.file.to_owned()
    }

    /// Looping is always a job for the outside transcoder.
    pub fn transform(&self, content: Vec<u8>) -> (r: TransformStep)
        ensures
            step_view(r) == TransformStepView::External(
                ExternalOp::LoopMeta,
                self.format_view(),
                content@,
            ),
    {
        TransformStep::External(
            ExternalJob {
                op: ExternalOp::LoopMeta,
                format: self.ffmpeg_format.clone(),
                input: content,
            },
        )
    }
}

/// Change a file's container format through the outside transcoder.
#[derive(Debug)]
pub struct ChangeFile {
    pub from_extension: String,
    pub to_extension: String,
    pub to_ffmpeg_format: String,
}

/// The format-change transformer bound to one file.
#[derive(Debug)]
pub struct ChangeFileForFile {
    file: SqPathBuf,
    from_extension: String,
    extension: String,
    ffmpeg_format: String,
}

impl ChangeFile {
    /// If the file carries the source extension, bind the change to it.
    pub fn maybe_for(&self, file: SqPathBuf) -> (r: Option<ChangeFileForFile>)
        ensures
            r is Some <==> is_suffix_of(seq!['.'] + self.from_extension@, file@),
            r is Some ==> r->0.wf() && r->0.file_view() == file@ && r->0.from_view()
                == self.from_extension@ && r->0.ext_view() == self.to_extension@
                && r->0.format_view() == self.to_ffmpeg_format@,
    {
        let mut pattern = String::from_str(".");
        pattern.append(self.from_extension.as_str());
        proof {
            reveal_strlit(".");
            assert(pattern@ =~= seq!['.'] + self.from_extension@);
        }
        if str_ends_with(file.as_str(), pattern.as_str()) {
            Some(
                ChangeFileForFile {
                    file,
                    from_extension: self.from_extension.clone(),
                    extension: self.to_extension.clone(),
                    ffmpeg_format: self.to_ffmpeg_format.clone(),
                },
            )
        } else {
            None
        }
    }
}

impl ChangeFileForFile {
    /// The file this transformer is bound to.
    pub closed spec fn file_view(&self) -> Seq<char> {
        self.file@
    }

    /// The extension the file carried.
    pub closed spec fn from_view(&self) -> Seq<char> {
        self.from_extension@
    }

    /// The extension the file gets.
    pub closed spec fn ext_view(&self) -> Seq<char> {
        self.extension@
    }

    /// The transcoder format of the target.
    pub closed spec fn format_view(&self) -> Seq<char> {
        self.ffmpeg_format@
    }

    /// The bound file really carries the matched extension.
    pub closed spec fn wf(&self) -> bool {
        is_suffix_of(seq!['.'] + self.from_extension@, self.file@)
    }

    /// The file name after the change: the source extension becomes the
    /// target's.
    pub fn renamed_file(&self) -> (r: SqPathBuf)
        requires
            self.wf(),
        ensures
            r@ == spec_renamed_with(self.file_view(), self.from_view().len() as int,
            self.ext_view()),
    {
        let s = self.file.as_str();
        let n = s.unicode_len();
        let m = self.from_extension.as_str().unicode_len();
        let mut out = String::from_str(s.substring_char(0, n - m));
        out.append(self.extension.as_str());
        SqPathBuf::new(out.as_str())
    }

    /// A format change is always a job for the outside transcoder.
    pub fn transform(&self, content: Vec<u8>) -> (r: TransformStep)
        ensures
            step_view(r) == TransformStepView::External(
                ExternalOp::Rewrap,
                self.format_view(),
                content@,
            ),
    {
        TransformStep::External(
            ExternalJob {
                op: ExternalOp::Rewrap,
                format: self.ffmpeg_format.clone(),
                input: content,
            },
        )
    }
}


/// The closed set of transformer tags the extraction pipeline knows.
#[derive(Copy, Clone, Eq, PartialEq, Structural, Debug)]
pub enum TransformerImpl {
    ScdToFlac,
    LoopFlac,
    ScdToOgg,
    LoopOgg,
    FlacToOgg,
    ScdToWav,
}

/// The transformer tag a command-line word names.
pub open spec fn spec_parse_tag(s: Seq<char>) -> Option<TransformerImpl> {
    if s == "scd_to_flac"@ {
        Some(TransformerImpl::ScdToFlac)
    } else if s == "loop_flac"@ {
        Some(TransformerImpl::LoopFlac)
    } else if s == "scd_to_ogg"@ {
        Some(TransformerImpl::ScdToOgg)
    } else if s == "loop_ogg"@ {
        Some(TransformerImpl::LoopOgg)
    } else if s == "flac_to_ogg"@ {
        Some(TransformerImpl::FlacToOgg)
    } else if s == "scd_to_wav"@ {
        Some(TransformerImpl::ScdToWav)
    } else {
        None
    }
}

/// Whether a transformer applies to a file, by its extension.
pub open spec fn spec_matches(t: TransformerImpl, file: Seq<char>) -> bool {
    match t {
        TransformerImpl::ScdToFlac => is_suffix_of(".scd"@, file),
        TransformerImpl::LoopFlac => is_suffix_of(".flac"@, file),
        TransformerImpl::ScdToOgg => is_suffix_of(".scd"@, file),
        TransformerImpl::LoopOgg => is_suffix_of(".ogg"@, file),
        TransformerImpl::FlacToOgg => is_suffix_of(".flac"@, file),
        TransformerImpl::ScdToWav => is_suffix_of(".scd"@, file),
    }
}

/// The name a matching transformer gives the file.
pub open spec fn spec_renamed(t: TransformerImpl, file: Seq<char>) -> Seq<char> {
    match t {
        TransformerImpl::ScdToFlac => spec_renamed_with(file, 3, "flac"@),
        TransformerImpl::LoopFlac => file,
        TransformerImpl::ScdToOgg => spec_renamed_with(file, 3, "ogg"@),
        TransformerImpl::LoopOgg => file,
        TransformerImpl::FlacToOgg => spec_renamed_with(file, 4, "ogg"@),
        TransformerImpl::ScdToWav => spec_renamed_with(file, 3, "wav"@),
    }
}

/// The step a matching transformer takes on the file's bytes.
pub open spec fn spec_transform(t: TransformerImpl, content: Seq<u8>) -> Option<
    TransformStepView,
> {
    match t {
        TransformerImpl::ScdToFlac => spec_scd_step(ScdAudioTransform::Flac, content),
        TransformerImpl::LoopFlac => Some(
            TransformStepView::External(ExternalOp::LoopMeta, "flac"@, content),
        ),
        TransformerImpl::ScdToOgg => spec_scd_step(ScdAudioTransform::Ogg, content),
        TransformerImpl::LoopOgg => Some(
            TransformStepView::External(ExternalOp::LoopMeta, "ogg"@, content),
        ),
        TransformerImpl::FlacToOgg => Some(
            TransformStepView::External(ExternalOp::Rewrap, "ogg"@, content),
        ),
        TransformerImpl::ScdToWav => spec_scd_step(ScdAudioTransform::Wav, content),
    }
}

/// A transformer bound to one matching file.
#[derive(Debug)]
pub enum FileTransformer {
    Scd(ScdTfForFile),
    Loop(LoopFileForFile),
    Change(ChangeFileForFile),
}

impl FileTransformer {
    /// The bound file and binding agree with the tag that made this.
    pub open spec fn bound_to(&self, t: TransformerImpl, file: Seq<char>) -> bool {
        match self {
            FileTransformer::Scd(f) => f.wf() && f.file_view() == file && (match t {
                TransformerImpl::ScdToFlac => f.kind() == ScdAudioTransform::Flac,
                TransformerImpl::ScdToOgg => f.kind() == ScdAudioTransform::Ogg,
                TransformerImpl::ScdToWav => f.kind() == ScdAudioTransform::Wav,
                _ => false,
            }),
            FileTransformer::Loop(f) => f.file_view() == file && (match t {
                TransformerImpl::LoopFlac => f.format_view() == "flac"@,
                TransformerImpl::LoopOgg => f.format_view() == "ogg"@,
                _ => false,
            }),
            FileTransformer::Change(f) => f.wf() && f.file_view() == file && (match t {
                TransformerImpl::FlacToOgg => f.from_view() == "flac"@ && f.ext_view() == "ogg"@
                    && f.format_view() == "ogg"@,
                _ => false,
            }),
        }
    }

    /// The name the bound transformer gives the file.
    pub fn renamed_file(
        &self,
        Ghost(t): Ghost<TransformerImpl>,
        Ghost(file): Ghost<Seq<char>>,
    ) -> (r: SqPathBuf)
        requires
            self.bound_to(t, file),
        ensures
            r@ == spec_renamed(t, file),
    {
        match self {
            FileTransformer::Scd(f) => {
                proof {
                    reveal_strlit("flac");
                    reveal_strlit("ogg");
                    reveal_strlit("wav");
                }
                f.renamed_file()
            },
            FileTransformer::Loop(f) => f.renamed_file(),
            FileTransformer::Change(f) => {
                proof {
                    reveal_strlit("flac");
                }
                f.renamed_file()
            },
        }
    }

    /// Run the bound transformer on the file's bytes.
    pub fn transform(
        &self,
        Ghost(t): Ghost<TransformerImpl>,
        Ghost(file): Ghost<Seq<char>>,
        content: Vec<u8>,
    ) -> (r: Result<TransformStep, LastLegendError>)
        requires
            self.bound_to(t, file),
        ensures
            match r {
                Ok(s) => spec_transform(t, content@) == Some(step_view(s)),
                Err(_) => spec_transform(t, content@) is None,
            },
    {
        match self {
            FileTransformer::Scd(f) => f.transform(content),
            FileTransformer::Loop(f) => Ok(f.transform(content)),
            FileTransformer::Change(f) => Ok(f.transform(content)),
        }
    }
}

impl TransformerImpl {
    /// The transformer tag a command-line word names.
    pub fn parse_tag(s: &str) -> (r: Option<TransformerImpl>)
        ensures
            r == spec_parse_tag(s@),
    {
        if str_eq(s, "scd_to_flac") {
            Some(TransformerImpl::ScdToFlac)
        } else if str_eq(s, "loop_flac") {
            Some(TransformerImpl::LoopFlac)
        } else if str_eq(s, "scd_to_ogg") {
            Some(TransformerImpl::ScdToOgg)
        } else if str_eq(s, "loop_ogg") {
            Some(TransformerImpl::LoopOgg)
        } else if str_eq(s, "flac_to_ogg") {
            Some(TransformerImpl::FlacToOgg)
        } else if str_eq(s, "scd_to_wav") {
            Some(TransformerImpl::ScdToWav)
        } else {
            None
        }
    }

    /// If this transformer applies to the given file, get a transformer
    /// bound to it.
    pub fn maybe_for(&self, file: SqPathBuf) -> (r: Option<FileTransformer>)
        ensures
            r is Some <==> spec_matches(*self, file@),
            r is Some ==> r->0.bound_to(*self, file@),
    {
        proof {
            reveal_strlit(".");
            reveal_strlit("flac");
            reveal_strlit("ogg");
            reveal_strlit(".flac");
            reveal_strlit(".ogg");
            assert(seq!['.'] + "flac"@ =~= ".flac"@);
            assert(seq!['.'] + "ogg"@ =~= ".ogg"@);
        }
        match self {
            TransformerImpl::ScdToFlac => match (ScdTf {
                audio_transform: ScdAudioTransform::Flac,
            }).maybe_for(file) {
                Some(f) => Some(FileTransformer::Scd(f)),
                None => None,
            },
            TransformerImpl::LoopFlac => match (LoopFile {
                extension: String::from_str("flac"),
                ffmpeg_format: String::from_str("flac"),
            }).maybe_for(file) {
                Some(f) => Some(FileTransformer::Loop(f)),
                None => None,
            },
            TransformerImpl::ScdToOgg => match (ScdTf {
                audio_transform: ScdAudioTransform::Ogg,
            }).maybe_for(file) {
                Some(f) => Some(FileTransformer::Scd(f)),
                None => None,
            },
            TransformerImpl::LoopOgg => match (LoopFile {
                extension: String::from_str("ogg"),
                ffmpeg_format: String::from_str("ogg"),
            }).maybe_for(file) {
                Some(f) => Some(FileTransformer::Loop(f)),
                None => None,
            },
            TransformerImpl::FlacToOgg => match (ChangeFile {
                from_extension: String::from_str("flac"),
                to_extension: String::from_str("ogg"),
                to_ffmpeg_format: String::from_str("ogg"),
            }).maybe_for(file) {
                Some(f) => Some(FileTransformer::Change(f)),
                None => None,
            },
            TransformerImpl::ScdToWav => match (ScdTf {
                audio_transform: ScdAudioTransform::Wav,
            }).maybe_for(file) {
                Some(f) => Some(FileTransformer::Scd(f)),
                None => None,
            },
        }
    }
}

/// A transformed entry, ready for the sink: its final name and its bytes.
#[derive(Debug)]
pub struct TransformedReader {
    pub file_name: SqPathBuf,
    pub content: Vec<u8>,
}

/// How far the chain got: all the way to bytes for the sink, or to a job
/// for the outside transcoder, with the transformers still to run.
#[derive(Debug)]
pub enum ChainProgress {
    Done(TransformedReader),
    External { file_name: SqPathBuf, job: ExternalJob, rest: Vec<TransformerImpl> },
}

/// Chain progress at the specification level.
pub enum ChainProgressView {
    Done(Seq<char>, Seq<u8>),
    External(Seq<char>, ExternalOp, Seq<char>, Seq<u8>, Seq<TransformerImpl>),
}

/// The progress a [`ChainProgress`] stands for.
pub open spec fn chain_progress_view(p: ChainProgress) -> ChainProgressView {
    match p {
        ChainProgress::Done(tr) => ChainProgressView::Done(tr.file_name@, tr.content@),
        ChainProgress::External { file_name, job, rest } => ChainProgressView::External(
            file_name@,
            job.op,
            job.format@,
            job.input@,
            rest@,
        ),
    }
}

/// What the chain makes of a file: each transformer in order, skipped
/// when its extension does not match, renaming and rewriting when it
/// does; the chain pauses at the first step that needs the outside
/// transcoder.
pub open spec fn spec_chain(
    file: Seq<char>,
    content: Seq<u8>,
    ts: Seq<TransformerImpl>,
) -> Option<ChainProgressView>
    decreases ts.len(),
{
    if ts.len() == 0 {
        Some(ChainProgressView::Done(file, content))
    } else {
        let t = ts[0];
        if !spec_matches(t, file) {
            spec_chain(file, content, ts.drop_first())
        } else {
            let renamed = spec_renamed(t, file);
            match spec_transform(t, content) {
                None => None,
                Some(TransformStepView::Done(b)) => spec_chain(renamed, b, ts.drop_first()),
                Some(TransformStepView::External(op, fmt, input)) => Some(
                    ChainProgressView::External(renamed, op, fmt, input, ts.drop_first()),
                ),
            }
        }
    }
}

/// An empty chain is the identity: the name and the bytes come back
/// unchanged.
pub proof fn lemma_chain_empty(file: Seq<char>, content: Seq<u8>)
    ensures
        spec_chain(file, content, Seq::empty()) == Some(ChainProgressView::Done(file, content)),
{
}

/// A chain where no transformer matches the file is the identity too.
pub proof fn lemma_chain_no_match(file: Seq<char>, content: Seq<u8>, ts: Seq<TransformerImpl>)
    requires
        forall|i: int| 0 <= i < ts.len() ==> !spec_matches(ts[i], file),
    ensures
        spec_chain(file, content, ts) == Some(ChainProgressView::Done(file, content)),
    decreases ts.len(),
{
    if ts.len() > 0 {
        lemma_chain_no_match(file, content, ts.drop_first());
    }
}

/// The transformers of `v` from `from` on.
fn tail_from(v: &Vec<TransformerImpl>, from: usize) -> (r: Vec<TransformerImpl>)
    requires
        from <= v@.len(),
    ensures
        r@ == v@.subrange(from as int, v@.len() as int),
{
    let mut r: Vec<TransformerImpl> = Vec::new();
    let mut i: usize = from;
    let n = v.len();
    while i < n
        invariant
            from <= i <= n,
            n == v@.len(),
            r@.len() == i - from,
            forall|j: int| 0 <= j < r@.len() ==> r@[j] == v@[from + j],
        decreases n - i,
    {
        r.push(v[i]);
        i += 1;
    }
    proof {
        assert(r@ =~= v@.subrange(from as int, v@.len() as int));
    }
    r
}

/// Run the chain over a file's name and bytes until it finishes or needs
/// the outside transcoder; see [`spec_chain`].
#[verifier::rlimit(100)]
pub fn run_chain(
    file_name: SqPathBuf,
    content: Vec<u8>,
    transformers: &Vec<TransformerImpl>,
) -> (r: Result<ChainProgress, LastLegendError>)
    ensures
        match r {
            Ok(p) => spec_chain(file_name@, content@, transformers@) == Some(
                chain_progress_view(p),
            ),
            Err(_) => spec_chain(file_name@, content@, transformers@) is None,
        },
{
    let ghost file0 = file_name@;
    let ghost content0 = content@;
    let mut name = file_name;
    let mut bytes = content;
    let n = transformers.len();
    let mut i: usize = 0;
    proof {
        assert(transformers@.skip(0) =~= transformers@);
    }
    while i < n
        invariant
            0 <= i <= n,
            n == transformers@.len(),
            file0 == file_name@,
            content0 == content@,
            spec_chain(file0, content0, transformers@) == spec_chain(
                name@,
                bytes@,
                transformers@.skip(i as int),
            ),
        decreases n - i,
    {
        let t = transformers[i];
        proof {
            assert(transformers@.skip(i as int)[0] == t);
            assert(transformers@.skip(i as int).drop_first() =~= transformers@.skip(i + 1));
        }
        let ghost old_bytes = bytes@;
        let ghost old_name = name@;
        match t.maybe_for(name.to_owned()) {
            None => {
                proof {
                    assert(spec_chain(old_name, old_bytes, transformers@.skip(i as int))
                        == spec_chain(old_name, old_bytes, transformers@.skip(i + 1)));
                }
            },
            Some(ft) => {
                let renamed = ft.renamed_file(Ghost(t), Ghost(name@));
                let step = match ft.transform(Ghost(t), Ghost(name@), bytes) {
                    Ok(s) => s,
                    Err(e) => {
                        proof {
                            assert(spec_chain(
                                name@,
                                old_bytes,
                                transformers@.skip(i as int),
                            ) is None);
                        }
                        return Err(e);
                    },
                };
                name = renamed;
                match step {
                    TransformStep::Done(b) => {
                        bytes = b;
                        proof {
                            assert(spec_chain(old_name, old_bytes, transformers@.skip(i as int))
                                == spec_chain(name@, bytes@, transformers@.skip(i + 1)));
                        }
                    },
                    TransformStep::External(job) => {
                        let rest = tail_from(transformers, i + 1);
                        proof {
                            assert(rest@ =~= transformers@.skip(i + 1));
                            assert(spec_chain(old_name, old_bytes, transformers@.skip(i as int))
                                == Some(ChainProgressView::External(
                                name@,
                                job.op,
                                job.format@,
                                job.input@,
                                rest@,
                            )));
                        }
                        return Ok(ChainProgress::External { file_name: name, job, rest });
                    },
                }
            },
        }
        i += 1;
    }
    proof {
        assert(transformers@.skip(n as int) =~= Seq::<TransformerImpl>::empty());
    }
    Ok(ChainProgress::Done(TransformedReader { file_name: name, content: bytes }))
}


/// Loop a `.flac` through the outside transcoder's metadata-driven loop.
#[derive(Debug)]
pub struct LoopFlac;

/// The `.flac` loop transformer bound to one file.
#[derive(Debug)]
pub struct LoopFlacForFile {
    file: SqPathBuf,
}

impl LoopFlac {
    /// If the file is a `.flac`, bind the loop to it.
    pub fn maybe_for(&self, file: SqPathBuf) -> (r: Option<LoopFlacForFile>)
        ensures
            r is Some <==> is_suffix_of(".flac"@, file@),
            r is Some ==> r->0.file_view() == file@,
    {
        if str_ends_with(file.as_str(), ".flac") {
            Some(LoopFlacForFile { file })
        } else {
            None
        }
    }
}

impl LoopFlacForFile {
    /// The file this transformer is bound to.
    pub closed spec fn file_view(&self) -> Seq<char> {
        self.file@
    }

    /// Looping keeps the file name.
    pub fn renamed_file(&self) -> (r: SqPathBuf)
        ensures
            r@ == self.file_view(),
    {
        self.file.to_owned()
    }

    /// Looping is always a job for the outside transcoder.
    pub fn transform(&self, content: Vec<u8>) -> (r: TransformStep)
        ensures
            step_view(r) == TransformStepView::External(ExternalOp::LoopMeta, "flac"@, content@),
    {
        TransformStep::External(
            ExternalJob {
                op: ExternalOp::LoopMeta,
                format: String::from_str("flac"),
                input: content,
            },
        )
    }
}

/// Loop an `.ogg` through the outside transcoder's metadata-driven loop.
#[derive(Debug)]
pub struct LoopOgg;

/// The `.ogg` loop transformer bound to one file.
#[derive(Debug)]
pub struct LoopOggForFile {
    file: SqPathBuf,
}

impl LoopOgg {
    /// If the file is an `.ogg`, bind the loop to it.
    pub fn maybe_for(&self, file: SqPathBuf) -> (r: Option<LoopOggForFile>)
        ensures
            r is Some <==> is_suffix_of(".ogg"@, file@),
            r is Some ==> r->0.file_view() == file@,
    {
        if str_ends_with(file.as_str(), ".ogg") {
            Some(LoopOggForFile { file })
        } else {
            None
        }
    }
}

impl LoopOggForFile {
    /// The file this transformer is bound to.
    pub closed spec fn file_view(&self) -> Seq<char> {
        self.file@
    }

    /// Looping keeps the file name.
    pub fn renamed_file(&self) -> (r: SqPathBuf)
        ensures
            r@ == self.file_view(),
    {
        self.file.to_owned()
    }

    /// Looping is always a job for the outside transcoder.
    pub fn transform(&self, content: Vec<u8>) -> (r: TransformStep)
        ensures
            step_view(r) == TransformStepView::External(ExternalOp::LoopMeta, "ogg"@, content@),
    {
        TransformStep::External(
            ExternalJob {
                op: ExternalOp::LoopMeta,
                format: String::from_str("ogg"),
                input: content,
            },
        )
    }
}


/// A `.scd` whose container holds an OGG stream runs through the
/// `scd_to_ogg` and `loop_ogg` chain to a transcoder loop job on exactly
/// those OGG bytes, renamed to `.ogg`.
pub proof fn lemma_scd_chain_renames_to_ogg(file: Seq<char>, content: Seq<u8>, v: Seq<u8>)
    requires
        is_suffix_of(".scd"@, file),
        spec_scd_output(content) == Some(ScdPayloadView::Ogg(v)),
    ensures
        spec_chain(
            file,
            content,
            seq![TransformerImpl::ScdToOgg, TransformerImpl::LoopOgg],
        ) == Some(
            ChainProgressView::External(
                spec_renamed_with(file, 3, "ogg"@),
                ExternalOp::LoopMeta,
                "ogg"@,
                v,
                Seq::empty(),
            ),
        ),
        is_suffix_of(".ogg"@, spec_renamed_with(file, 3, "ogg"@)),
{
    reveal_strlit(".scd");
    reveal_strlit(".ogg");
    reveal_strlit("ogg");
    let ts = seq![TransformerImpl::ScdToOgg, TransformerImpl::LoopOgg];
    let renamed = spec_renamed_with(file, 3, "ogg"@);
    assert(file[file.len() - 4] == '.') by {
        assert(file.skip(file.len() - 4)[0] == file[file.len() - 4]);
    }
    assert(renamed.skip(renamed.len() - 4) =~= ".ogg"@);
    assert(ts.drop_first() =~= seq![TransformerImpl::LoopOgg]);
    assert(ts.drop_first().drop_first() =~= Seq::<TransformerImpl>::empty());
    assert(spec_chain(file, content, ts) == spec_chain(renamed, v, ts.drop_first()));
    assert(spec_chain(renamed, v, ts.drop_first()) == Some(
        ChainProgressView::External(
            renamed,
            ExternalOp::LoopMeta,
            "ogg"@,
            v,
            ts.drop_first().drop_first(),
        ),
    ));
}

/// The same chain leaves a `.bin` untouched: neither transformer matches,
/// so the name and the bytes come back unchanged.
pub proof fn lemma_chain_skips_foreign_extension(file: Seq<char>, content: Seq<u8>)
    requires
        is_suffix_of(".bin"@, file),
    ensures
        spec_chain(
            file,
            content,
            seq![TransformerImpl::ScdToOgg, TransformerImpl::LoopOgg],
        ) == Some(ChainProgressView::Done(file, content)),
{
    reveal_strlit(".bin");
    reveal_strlit(".scd");
    reveal_strlit(".ogg");
    let ts = seq![TransformerImpl::ScdToOgg, TransformerImpl::LoopOgg];
    assert(file[file.len() - 1] == 'n') by {
        assert(file.skip(file.len() - 4)[3] == file[file.len() - 1]);
    }
    assert(!is_suffix_of(".scd"@, file)) by {
        if is_suffix_of(".scd"@, file) {
            assert(file.skip(file.len() - 4)[3] == file[file.len() - 1]);
        }
    }
    assert(!is_suffix_of(".ogg"@, file)) by {
        if is_suffix_of(".ogg"@, file) {
            assert(file.skip(file.len() - 4)[3] == file[file.len() - 1]);
        }
    }
    assert(forall|i: int| 0 <= i < ts.len() ==> !spec_matches(ts[i], file));
    lemma_chain_no_match(file, content, ts);
}

} // verus!
