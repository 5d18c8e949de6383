//! The hardware encoder self-check table: one row per test resolution, one
//! cell per codec. Running a smoke test needs an encoder, a thread and a
//! clock, so the table is built from the outcomes of the tests that were run.
use vstd::prelude::*;
use vstd::string::StringExecFns;
use crate::codec_constraints::spec_encoder_codec_id;
use crate::format::Resolution;
use crate::registry::{
    backends_present, first_eligible, spec_all_backends, spec_backend_name, spec_encoder_type_name,
    spec_is_hardware, spec_ordered, AvailableEncoder, EncoderBackend, EncoderRegistry,
    VideoEncoderType,
};

verus! {

/// A codec column of the table.
pub struct VideoEncoderSelfCheckCodec {
    pub id: &'static str,
    pub name: &'static str,
}

/// The result for one codec at one resolution.
pub struct VideoEncoderSelfCheckCell {
    pub codec_id: &'static str,
    pub ok: bool,
    pub elapsed_ms: Option<u64>,
}

/// The results at one resolution.
pub struct VideoEncoderSelfCheckRow {
    pub resolution_id: &'static str,
    pub resolution_label: &'static str,
    pub width: u32,
    pub height: u32,
    pub cells: Vec<VideoEncoderSelfCheckCell>,
}

/// The whole table.
pub struct VideoEncoderSelfCheckResponse {
    pub current_hardware_encoder: String,
    pub codecs: Vec<VideoEncoderSelfCheckCodec>,
    pub rows: Vec<VideoEncoderSelfCheckRow>,
}

/// A smoke test to run: encode a few frames of `resolution` with `codec_name`.
pub struct SelfCheckJob {
    pub codec: VideoEncoderType,
    pub resolution: Resolution,
    pub codec_name: String,
}

/// What a smoke test gave: whether it produced output, and how long it took.
#[derive(Debug, Clone, Copy, PartialEq, Eq, Structural)]
pub struct SmokeTestOutcome {
    pub ok: bool,
    pub elapsed_ms: u64,
}

/// The test resolutions, by row: identifier, label, width, height.
pub open spec fn spec_test_resolution(r: int) -> (Seq<char>, Seq<char>, u32, u32) {
    if r == 0 {
        ("720p"@, "720p"@, 1280u32, 720u32)
    } else if r == 1 {
        ("1080p"@, "1080p"@, 1920u32, 1080u32)
    } else if r == 2 {
        ("2k"@, "2K"@, 2560u32, 1440u32)
    } else {
        ("4k"@, "4K"@, 3840u32, 2160u32)
    }
}

/// The column heading of a codec.
pub open spec fn spec_column_name(codec: VideoEncoderType) -> Seq<char> {
    if codec == VideoEncoderType::H265 {
        "H.265"@
    } else {
        spec_encoder_type_name(codec)
    }
}

/// The preferred hardware encoder of `f`, if the registry holds one.
pub open spec fn spec_best_hardware(reg: EncoderRegistry, f: VideoEncoderType) -> Option<
    AvailableEncoder,
> {
    let s = reg.encoders(f);
    let i = first_eligible(s, true);
    if i < s.len() {
        Some(s[i])
    } else {
        None
    }
}

/// The display names of the hardware backends in `s`, joined by `/`.
pub open spec fn spec_hardware_join(s: Seq<EncoderBackend>) -> Seq<char>
    decreases s.len(),
{
    if s.len() == 0 {
        Seq::empty()
    } else {
        let prev = spec_hardware_join(s.drop_last());
        let b = s.last();
        if !spec_is_hardware(b) {
            prev
        } else if prev.len() == 0 {
            spec_backend_name(b)
        } else {
            prev + "/"@ + spec_backend_name(b)
        }
    }
}

/// The hardware backends present, joined by `/`, or `None`.
pub open spec fn spec_current_hardware(reg: EncoderRegistry) -> Seq<char> {
    let j = spec_hardware_join(backends_present(reg, spec_all_backends()));
    if j.len() == 0 {
        "None"@
    } else {
        j
    }
}

pub open spec fn columns_match(cols: Seq<VideoEncoderSelfCheckCodec>) -> bool {
    &&& cols.len() == 4
    &&& forall|c: int|
        0 <= c < 4 ==> {
            &&& (#[trigger] cols[c]).id@ == spec_encoder_codec_id(spec_ordered()[c])
            &&& cols[c].name@ == spec_column_name(spec_ordered()[c])
        }
}

pub open spec fn row_header_matches(row: VideoEncoderSelfCheckRow, r: int) -> bool {
    let t = spec_test_resolution(r);
    &&& row.resolution_id@ == t.0
    &&& row.resolution_label@ == t.1
    &&& row.width == t.2
    &&& row.height == t.3
    &&& row.cells@.len() == 4
}

pub open spec fn cell_matches(
    cell: VideoEncoderSelfCheckCell,
    codec: VideoEncoderType,
    outcome: Option<SmokeTestOutcome>,
) -> bool {
    &&& cell.codec_id@ == spec_encoder_codec_id(codec)
    &&& match outcome {
        Some(o) => cell.ok == o.ok && cell.elapsed_ms == Some(o.elapsed_ms),
        None => !cell.ok && cell.elapsed_ms is None,
    }
}

/// The outcome that counts for row `r`, column `c`: the one reported at
/// index `4 * r + c`, where the registry holds a hardware encoder of the codec.
pub open spec fn spec_outcome_for(
    reg: EncoderRegistry,
    outcomes: Seq<Option<SmokeTestOutcome>>,
    r: int,
    c: int,
) -> Option<SmokeTestOutcome> {
    let i = 4 * r + c;
    if spec_best_hardware(reg, spec_ordered()[c]) is Some && i < outcomes.len() {
        outcomes[i]
    } else {
        None
    }
}

fn test_resolution(r: usize) -> (t: (&'static str, &'static str, Resolution))
    requires
        r < 4,
    ensures
        t.0@ == spec_test_resolution(r as int).0,
        t.1@ == spec_test_resolution(r as int).1,
        t.2.width == spec_test_resolution(r as int).2,
        t.2.height == spec_test_resolution(r as int).3,
{
    if r == 0 {
        ("720p", "720p", Resolution::HD720())
    } else if r == 1 {
        ("1080p", "1080p", Resolution::HD1080())
    } else if r == 2 {
        ("2k", "2K", Resolution::new(2560, 1440))
    } else {
        ("4k", "4K", Resolution::UHD4K())
    }
}

fn codec_id(codec: VideoEncoderType) -> (r: &'static str)
    ensures
        r@ == spec_encoder_codec_id(codec),
{
    match codec {
        VideoEncoderType::H264 => "h264",
        VideoEncoderType::H265 => "h265",
        VideoEncoderType::VP8 => "vp8",
        VideoEncoderType::VP9 => "vp9",
    }
}

fn codec_columns() -> (r: Vec<VideoEncoderSelfCheckCodec>)
    ensures
        columns_match(r@),
{
    let codecs = VideoEncoderType::ordered();
    let mut cols: Vec<VideoEncoderSelfCheckCodec> = Vec::new();
    let mut c: usize = 0;
    while c < 4
        invariant
            codecs@ == spec_ordered(),
            c <= 4,
            cols@.len() == c,
            forall|k: int|
                0 <= k < c ==> {
                    &&& (#[trigger] cols@[k]).id@ == spec_encoder_codec_id(spec_ordered()[k])
                    &&& cols@[k].name@ == spec_column_name(spec_ordered()[k])
                },
        decreases 4 - c,
    {
        let codec = codecs[c];
        let name = match codec {
            VideoEncoderType::H265 => "H.265",
            _ => codec.display_name(),
        };
        cols.push(VideoEncoderSelfCheckCodec { id: codec_id(codec), name });
        c = c + 1;
    }
    cols
}

fn current_hardware_encoder(registry: &EncoderRegistry) -> (r: String)
    ensures
        r@ == spec_current_hardware(*registry),
{
    let backends = registry.available_backends();
    let mut out = String::new();
    let mut i: usize = 0;
    while i < backends.len()
        invariant
            i <= backends.len(),
            out@ == spec_hardware_join(backends@.take(i as int)),
        decreases backends.len() - i,
    {
        let b = backends[i];
        proof {
            assert(backends@.take(i as int + 1).drop_last() =~= backends@.take(i as int));
            reveal_strlit("VAAPI");
            reveal_strlit("NVENC");
            reveal_strlit("QSV");
            reveal_strlit("AMF");
            reveal_strlit("RKMPP");
            reveal_strlit("V4L2 M2M");
            reveal_strlit("/");
        }
        if b.is_hardware() {
            if !out.as_str().is_empty() {
                out.append("/");
            }
            out.append(b.display_name());
        }
        proof {
            let next = backends@.take(i as int + 1);
            assert(next.last() == b);
            assert(out@ =~= spec_hardware_join(next));
        }
        i = i + 1;
    }
    proof {
        assert(backends@.take(backends@.len() as int) =~= backends@);
    }
    if out.as_str().is_empty() {
        String::from_str("None")
    } else {
        out
    }
}

fn best_hardware(registry: &EncoderRegistry, codec: VideoEncoderType) -> (r: Option<String>)
    ensures
        match (r, spec_best_hardware(*registry, codec)) {
            (None, None) => true,
            (Some(n), Some(e)) => n@ == e.codec_name@,
            _ => false,
        },
{
    match registry.best_encoder(codec, true) {
        Some(e) => Some(e.codec_name.clone()),
        None => None,
    }
}

/// The smoke tests to run, by cell: index `4 * r + c` is row `r`, column
/// `c`; a cell whose codec has no hardware encoder has none.
pub fn self_check_jobs(registry: &EncoderRegistry) -> (r: Vec<Option<SelfCheckJob>>)
    ensures
        r@.len() == 16,
        forall|r0: int, c: int|
            0 <= r0 < 4 && 0 <= c < 4 ==> match (#[trigger] r@[4 * r0 + c], spec_best_hardware(
                *registry,
                spec_ordered()[c],
            )) {
                (None, None) => true,
                (Some(job), Some(e)) => {
                    &&& job.codec == spec_ordered()[c]
                    &&& job.resolution.width == spec_test_resolution(r0).2
                    &&& job.resolution.height == spec_test_resolution(r0).3
                    &&& job.codec_name@ == e.codec_name@
                },
                _ => false,
            },
{
    let codecs = VideoEncoderType::ordered();
    let mut jobs: Vec<Option<SelfCheckJob>> = Vec::new();
    let mut row: usize = 0;
    while row < 4
        invariant
            codecs@ == spec_ordered(),
            row <= 4,
            jobs@.len() == 4 * row,
            forall|r0: int, c: int|
                0 <= r0 < row && 0 <= c < 4 ==> match (
                    #[trigger] jobs@[4 * r0 + c],
                    spec_best_hardware(*registry, spec_ordered()[c]),
                ) {
                    (None, None) => true,
                    (Some(job), Some(e)) => {
                        &&& job.codec == spec_ordered()[c]
                        &&& job.resolution.width == spec_test_resolution(r0).2
                        &&& job.resolution.height == spec_test_resolution(r0).3
                        &&& job.codec_name@ == e.codec_name@
                    },
                    _ => false,
                },
        decreases 4 - row,
    {
        let (_, _, resolution) = test_resolution(row);
        let mut c: usize = 0;
        while c < 4
            invariant
                codecs@ == spec_ordered(),
                row < 4,
                c <= 4,
                resolution.width == spec_test_resolution(row as int).2,
                resolution.height == spec_test_resolution(row as int).3,
                jobs@.len() == 4 * row + c,
                forall|r0: int, c0: int|
                    0 <= r0 <= row && 0 <= c0 < 4 && 4 * r0 + c0 < 4 * row + c ==> match (
                        #[trigger] jobs@[4 * r0 + c0],
                        spec_best_hardware(*registry, spec_ordered()[c0]),
                    ) {
                        (None, None) => true,
                        (Some(job), Some(e)) => {
                            &&& job.codec == spec_ordered()[c0]
                            &&& job.resolution.width == spec_test_resolution(r0).2
                            &&& job.resolution.height == spec_test_resolution(r0).3
                            &&& job.codec_name@ == e.codec_name@
                        },
                        _ => false,
                    },
            decreases 4 - c,
        {
            let codec = codecs[c];
            let job = match best_hardware(registry, codec) {
                Some(name) => Some(SelfCheckJob { codec, resolution, codec_name: name }),
                None => None,
            };
            jobs.push(job);
            proof {
                assert forall|r0: int, c0: int|
                    0 <= r0 <= row && 0 <= c0 < 4 && 4 * r0 + c0 < 4 * row + c + 1 implies match (
                        #[trigger] jobs@[4 * r0 + c0],
                        spec_best_hardware(*registry, spec_ordered()[c0]),
                    ) {
                        (None, None) => true,
                        (Some(job), Some(e)) => {
                            &&& job.codec == spec_ordered()[c0]
                            &&& job.resolution.width == spec_test_resolution(r0).2
                            &&& job.resolution.height == spec_test_resolution(r0).3
                            &&& job.codec_name@ == e.codec_name@
                        },
                        _ => false,
                    } by {
                    if 4 * r0 + c0 == 4 * row + c {
                        assert(r0 == row && c0 == c);
                    }
                }
            }
            c = c + 1;
        }
        row = row + 1;
    }
    jobs
}

fn failed_cell(codec: VideoEncoderType) -> (r: VideoEncoderSelfCheckCell)
    ensures
        cell_matches(r, codec, None),
{
    VideoEncoderSelfCheckCell { codec_id: codec_id(codec), ok: false, elapsed_ms: None }
}

/// The table for the outcomes reported by index `4 * row + column` (see
/// `self_check_jobs`); a cell with no hardware encoder, or no outcome
/// reported, is a failure with no time.
pub fn run_hardware_self_check(
    registry: &EncoderRegistry,
    outcomes: &Vec<Option<SmokeTestOutcome>>,
) -> (r: VideoEncoderSelfCheckResponse)
    ensures
        r.current_hardware_encoder@ == spec_current_hardware(*registry),
        columns_match(r.codecs@),
        r.rows@.len() == 4,
        forall|r0: int|
            0 <= r0 < 4 ==> row_header_matches(#[trigger] r.rows@[r0], r0),
        forall|r0: int, c: int|
            0 <= r0 < 4 && 0 <= c < 4 ==> cell_matches(
                #[trigger] r.rows@[r0].cells@[c],
                spec_ordered()[c],
                spec_outcome_for(*registry, outcomes@, r0, c),
            ),
{
    let codecs = VideoEncoderType::ordered();
    let mut rows: Vec<VideoEncoderSelfCheckRow> = Vec::new();
    let mut row: usize = 0;
    while row < 4
        invariant
            codecs@ == spec_ordered(),
            row <= 4,
            rows@.len() == row,
            forall|r0: int| 0 <= r0 < row ==> row_header_matches(#[trigger] rows@[r0], r0),
            forall|r0: int, c: int|
                0 <= r0 < row && 0 <= c < 4 ==> cell_matches(
                    #[trigger] rows@[r0].cells@[c],
                    spec_ordered()[c],
                    spec_outcome_for(*registry, outcomes@, r0, c),
                ),
        decreases 4 - row,
    {
        let (resolution_id, resolution_label, resolution) = test_resolution(row);
        let mut cells: Vec<VideoEncoderSelfCheckCell> = Vec::new();
        let mut c: usize = 0;
        while c < 4
            invariant
                codecs@ == spec_ordered(),
                row < 4,
                c <= 4,
                cells@.len() == c,
                forall|c0: int|
                    0 <= c0 < c ==> cell_matches(
                        #[trigger] cells@[c0],
                        spec_ordered()[c0],
                        spec_outcome_for(*registry, outcomes@, row as int, c0),
                    ),
            decreases 4 - c,
        {
            let codec = codecs[c];
            let idx = 4 * row + c;
            let cell = match registry.best_encoder(codec, true) {
                Some(_) => {
                    if idx < outcomes.len() {
                        match outcomes[idx] {
                            Some(o) => VideoEncoderSelfCheckCell {
                                codec_id: codec_id(codec),
                                ok: o.ok,
                                elapsed_ms: Some(o.elapsed_ms),
                            },
                            None => failed_cell(codec),
                        }
                    } else {
                        failed_cell(codec)
                    }
                },
                None => failed_cell(codec),
            };
            cells.push(cell);
            c = c + 1;
        }
        let ghost cs = cells@;
        let ghost old_rows = rows@;
        rows.push(
            VideoEncoderSelfCheckRow {
                resolution_id,
                resolution_label,
                width: resolution.width,
                height: resolution.height,
                cells,
            },
        );
        proof {
            assert forall|r0: int, c0: int|
                0 <= r0 < row + 1 && 0 <= c0 < 4 implies cell_matches(
                    #[trigger] rows@[r0].cells@[c0],
                    spec_ordered()[c0],
                    spec_outcome_for(*registry, outcomes@, r0, c0),
                ) by {
                if r0 < row {
                    assert(rows@[r0] == old_rows[r0]);
                    assert(cell_matches(
                        old_rows[r0].cells@[c0],
                        spec_ordered()[c0],
                        spec_outcome_for(*registry, outcomes@, r0, c0),
                    ));
                }
                if r0 == row {
                    assert(rows@[r0].cells@ == cs);
                    assert(cell_matches(
                        cs[c0],
                        spec_ordered()[c0],
                        spec_outcome_for(*registry, outcomes@, row as int, c0),
                    ));
                }
            }
        }
        row = row + 1;
    }
    VideoEncoderSelfCheckResponse {
        current_hardware_encoder: current_hardware_encoder(registry),
        codecs: codec_columns(),
        rows,
    }
}

/// The table reported when the self-check itself could not run: every cell
/// failed, with no time, and no hardware encoder named.
pub fn build_hardware_self_check_runtime_error() -> (r: VideoEncoderSelfCheckResponse)
    ensures
        r.current_hardware_encoder@ == "None"@,
        columns_match(r.codecs@),
        r.rows@.len() == 4,
        forall|r0: int|
            0 <= r0 < 4 ==> row_header_matches(#[trigger] r.rows@[r0], r0),
        forall|r0: int, c: int|
            0 <= r0 < 4 && 0 <= c < 4 ==> cell_matches(
                #[trigger] r.rows@[r0].cells@[c],
                spec_ordered()[c],
                None,
            ),
{
    let codecs = VideoEncoderType::ordered();
    let mut rows: Vec<VideoEncoderSelfCheckRow> = Vec::new();
    let mut row: usize = 0;
    while row < 4
        invariant
            codecs@ == spec_ordered(),
            row <= 4,
            rows@.len() == row,
            forall|r0: int| 0 <= r0 < row ==> row_header_matches(#[trigger] rows@[r0], r0),
            forall|r0: int, c: int|
                0 <= r0 < row && 0 <= c < 4 ==> cell_matches(
                    #[trigger] rows@[r0].cells@[c],
                    spec_ordered()[c],
                    None,
                ),
        decreases 4 - row,
    {
        let (resolution_id, resolution_label, resolution) = test_resolution(row);
        let mut cells: Vec<VideoEncoderSelfCheckCell> = Vec::new();
        let mut c: usize = 0;
        while c < 4
            invariant
                codecs@ == spec_ordered(),
                c <= 4,
                cells@.len() == c,
                forall|c0: int|
                    0 <= c0 < c ==> cell_matches(#[trigger] cells@[c0], spec_ordered()[c0], None),
            decreases 4 - c,
        {
            cells.push(failed_cell(codecs[c]));
            c = c + 1;
        }
        let ghost cs = cells@;
        let ghost old_rows = rows@;
        rows.push(
            VideoEncoderSelfCheckRow {
                resolution_id,
                resolution_label,
                width: resolution.width,
                height: resolution.height,
                cells,
            },
        );
        proof {
            assert forall|r0: int, c0: int|
                0 <= r0 < row + 1 && 0 <= c0 < 4 implies cell_matches(
                    #[trigger] rows@[r0].cells@[c0],
                    spec_ordered()[c0],
                    None,
                ) by {
                if r0 < row {
                    assert(rows@[r0] == old_rows[r0]);
                    assert(cell_matches(old_rows[r0].cells@[c0], spec_ordered()[c0], None));
                }
                if r0 == row {
                    assert(rows@[r0].cells@ == cs);
                    assert(cell_matches(cs[c0], spec_ordered()[c0], None));
                }
            }
        }
        row = row + 1;
    }
    VideoEncoderSelfCheckResponse {
        current_hardware_encoder: String::from_str("None"),
        codecs: codec_columns(),
        rows,
    }
}

} // verus!
