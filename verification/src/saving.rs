//! Saving the annotated picture and putting it in the clipboard.
//!
//! A save is a chain of steps. The caller takes each step and reports how it went; the functions
//! below say which step comes next, where the picture goes and what the clipboard gets. The first
//! step that fails ends the save.
use crate::editor::{Annotation, Brush};
use crate::failure::Failure;
use crate::ink::render_annotations;
use crate::naming::{capture_path, Moment};
use crate::outline::Mark;
use crate::picture::Picture;
use crate::raster::Color;
use vstd::prelude::*;

verus! {

/// What a save does next.
#[derive(Debug)]
pub enum SaveStep {
    /// Make this directory and those above it.
    CreateDirectory { path: Vec<u8> },
    /// Make an empty file at this path, in place of what is there.
    CreateFile { path: Vec<u8> },
    /// Write these bytes to the file that was made at this path.
    WriteFile { path: Vec<u8>, bytes: Vec<u8> },
    /// Find the clipboard of the display. The saved file is at this path.
    FindClipboard { path: Vec<u8> },
    /// Read the saved file back.
    ReadFile { path: Vec<u8> },
    /// Offer these bytes in the clipboard, as `image/png`.
    Publish { bytes: Vec<u8> },
    /// The picture is saved and copied.
    Done,
    /// The save has ended without success.
    Failed(Failure),
}

/// The model of a step.
pub enum Stage {
    CreateDirectory { path: Seq<u8> },
    CreateFile { path: Seq<u8> },
    WriteFile { path: Seq<u8>, bytes: Seq<u8> },
    FindClipboard { path: Seq<u8> },
    ReadFile { path: Seq<u8> },
    Publish { bytes: Seq<u8> },
    Done,
    Failed { message: Seq<char> },
}

impl View for SaveStep {
    type V = Stage;

    open spec fn view(&self) -> Stage {
        match *self {
            SaveStep::CreateDirectory { path } => Stage::CreateDirectory { path: path@ },
            SaveStep::CreateFile { path } => Stage::CreateFile { path: path@ },
            SaveStep::WriteFile { path, bytes } => Stage::WriteFile {
                path: path@,
                bytes: bytes@,
            },
            SaveStep::FindClipboard { path } => Stage::FindClipboard { path: path@ },
            SaveStep::ReadFile { path } => Stage::ReadFile { path: path@ },
            SaveStep::Publish { bytes } => Stage::Publish { bytes: bytes@ },
            SaveStep::Done => Stage::Done,
            SaveStep::Failed(failure) => Stage::Failed { message: failure.text() },
        }
    }
}

/// The save has ended for this reason.
pub open spec fn failed(failure: Failure) -> Stage {
    Stage::Failed { message: failure.text() }
}

/// The message for a picture that could not be encoded or written.
pub open spec fn png_failure(error: Seq<char>) -> Stage {
    Stage::Failed { message: "Could not save PNG: "@ + error }
}

/// What follows the making of the output directory: a file is made in it, under the name of the
/// moment.
pub open spec fn after_directory(
    made: Result<(), String>,
    shown: String,
    directory: Seq<u8>,
    moment: Moment,
) -> Stage {
    match made {
        Ok(_) => Stage::CreateFile {
            path: crate::paths::file_in(directory, crate::naming::capture_name(moment)),
        },
        Err(error) => failed(Failure::OutputDirectory { directory: shown, error }),
    }
}

/// What follows the encoding of the picture: the file gets it.
pub open spec fn after_encoding(png: Result<Seq<u8>, Seq<char>>, path: Seq<u8>) -> Stage {
    match png {
        Ok(bytes) => Stage::WriteFile { path, bytes },
        Err(error) => png_failure(error),
    }
}

/// What follows the making of the file: the picture is encoded.
pub open spec fn after_creation(
    created: Result<(), String>,
    path: Seq<u8>,
    png: Result<Seq<u8>, Seq<char>>,
) -> Stage {
    match created {
        Ok(_) => after_encoding(png, path),
        Err(error) => failed(Failure::Png(error)),
    }
}

/// What follows the writing of the file.
pub open spec fn after_write(written: Result<(), String>, path: Seq<u8>) -> Stage {
    match written {
        Ok(_) => Stage::FindClipboard { path },
        Err(error) => failed(Failure::Png(error)),
    }
}

/// What follows the search for the clipboard.
pub open spec fn after_search(found: bool, path: Seq<u8>) -> Stage {
    if found {
        Stage::ReadFile { path }
    } else {
        failed(Failure::Display)
    }
}

/// What follows the reading of the saved file: the clipboard gets exactly what was read.
pub open spec fn after_read(read: Result<Vec<u8>, String>) -> Stage {
    match read {
        Ok(bytes) => Stage::Publish { bytes: bytes@ },
        Err(error) => failed(Failure::PngReading(error)),
    }
}

/// What follows the offer to the clipboard.
pub open spec fn after_publication(published: Result<(), String>) -> Stage {
    match published {
        Ok(_) => Stage::Done,
        Err(error) => failed(Failure::Clipboard(error)),
    }
}

/// Begins a save into the output directory.
pub fn begin_save(output_dir: &Vec<u8>) -> (step: SaveStep)
    ensures
        step@ == (Stage::CreateDirectory { path: output_dir@ }),
{
    let mut path: Vec<u8> = Vec::new();
    path.extend_from_slice(output_dir.as_slice());
    assert(path@ =~= output_dir@);
    SaveStep::CreateDirectory { path }
}

/// The output directory was made, or could not be. `shown` is the directory as the user sees it.
/// The file is named after the moment, which must be one that the calendar has.
pub fn directory_made(
    made: Result<(), String>,
    shown: String,
    output_dir: &Vec<u8>,
    moment: Moment,
) -> (step: SaveStep)
    requires
        made is Ok ==> moment.exists_in_calendar(),
    ensures
        step@ == after_directory(made, shown, output_dir@, moment),
{
    match made {
        Err(error) => SaveStep::Failed(Failure::OutputDirectory { directory: shown, error }),
        Ok(()) => match capture_path(output_dir, moment) {
            Some(path) => SaveStep::CreateFile { path },
            None => vstd::pervasive::unreached(),
        },
    }
}

/// The picture was encoded, or could not be. A file for it is at this path.
pub fn picture_encoded(encoded: Result<Vec<u8>, String>, path: Vec<u8>) -> (step: SaveStep)
    ensures
        step@ == after_encoding(crate::picture::contents(encoded), path@),
{
    match encoded {
        Ok(bytes) => SaveStep::WriteFile { path, bytes },
        Err(error) => SaveStep::Failed(Failure::Png(error)),
    }
}

/// The file was made, or could not be. This picture is encoded for it.
pub fn file_created(created: Result<(), String>, path: Vec<u8>, picture: &Picture) -> (step:
    SaveStep)
    ensures
        step@ == after_creation(
            created,
            path@,
            crate::picture::png_encoding(picture.size(), picture.pixels()),
        ),
{
    match created {
        Ok(()) => picture_encoded(picture.to_png(), path),
        Err(error) => SaveStep::Failed(Failure::Png(error)),
    }
}

/// The file was made, or could not be. The screenshot under its annotations is encoded for it: the
/// functions that are handed in place, sample and paint them.
pub fn annotated_file_created<
    C: Copy,
    F: Copy,
    G: Fn((C, C)) -> (C, C),
    O: Fn((C, C), (C, C)) -> ((C, C), (C, C)),
    S: Fn(Mark<(C, C)>) -> Vec<(i32, i32)>,
    B: Fn(Brush<F>) -> (i32, Color),
>(
    created: Result<(), String>,
    path: Vec<u8>,
    source: &Picture,
    annotations: &Vec<Annotation<(C, C), F>>,
    grow: &G,
    order: &O,
    sample: &S,
    pen: &B,
) -> (step: SaveStep)
    requires
        forall|point: (C, C)| call_requires(*grow, (point,)),
        forall|start: (C, C), end: (C, C)| call_requires(*order, (start, end)),
        forall|mark: Mark<(C, C)>| call_requires(*sample, (mark,)),
        forall|brush: Brush<F>| call_requires(*pen, (brush,)),
    ensures
        exists|strokes: Seq<crate::raster::Stroke>|
            {
                &&& #[trigger] crate::ink::inked(
                    *grow,
                    *order,
                    *sample,
                    *pen,
                    crate::editor::models(annotations@),
                    strokes,
                )
                &&& step@ == after_creation(
                    created,
                    path@,
                    crate::picture::png_encoding(
                        source.size(),
                        crate::raster::rendered(source.pixels(), crate::raster::models(strokes)),
                    ),
                )
            },
        forall|arithmetic: crate::arithmetic::Arithmetic<C, F>| #[trigger]
            crate::arithmetic::computes(*grow, *order, *sample, *pen, arithmetic) ==> step@
                == after_creation(
                created,
                path@,
                crate::picture::png_encoding(
                    source.size(),
                    arithmetic.annotated(source.pixels(), crate::editor::models(annotations@)),
                ),
            ),
{
    let annotated: Picture = render_annotations(source, annotations, grow, order, sample, pen);
    file_created(created, path, &annotated)
}

/// The file was written to a path, or could not be.
pub fn file_written(written: Result<(), String>, path: Vec<u8>) -> (step: SaveStep)
    ensures
        step@ == after_write(written, path@),
{
    match written {
        Ok(()) => SaveStep::FindClipboard { path },
        Err(error) => SaveStep::Failed(Failure::Png(error)),
    }
}

/// The display has a clipboard, or there is no display.
pub fn clipboard_searched(found: bool, path: Vec<u8>) -> (step: SaveStep)
    ensures
        step@ == after_search(found, path@),
{
    if found {
        SaveStep::ReadFile { path }
    } else {
        SaveStep::Failed(Failure::Display)
    }
}

/// The saved file was read back, or could not be.
pub fn file_read(read: Result<Vec<u8>, String>) -> (step: SaveStep)
    ensures
        step@ == after_read(read),
{
    match read {
        Ok(bytes) => SaveStep::Publish { bytes },
        Err(error) => SaveStep::Failed(Failure::PngReading(error)),
    }
}

/// The clipboard took the picture, or did not.
pub fn picture_published(published: Result<(), String>) -> (step: SaveStep)
    ensures
        step@ == after_publication(published),
{
    match published {
        Ok(()) => SaveStep::Done,
        Err(error) => SaveStep::Failed(Failure::Clipboard(error)),
    }
}

/// How the steps of a save go, as far as they are taken.
pub struct SaveRun {
    pub made: Result<(), String>,
    pub created: Result<(), String>,
    pub png: Result<Seq<u8>, Seq<char>>,
    pub written: Result<(), String>,
    pub found: bool,
    pub read: Result<Vec<u8>, String>,
    pub published: Result<(), String>,
}

/// The last step of a save whose steps go this way.
pub open spec fn last_stage(
    run: SaveRun,
    shown: String,
    directory: Seq<u8>,
    moment: Moment,
) -> Stage {
    match after_directory(run.made, shown, directory, moment) {
        Stage::CreateFile { path } => match after_creation(run.created, path, run.png) {
            Stage::WriteFile { path, bytes: _ } => match after_write(run.written, path) {
                Stage::FindClipboard { path } => match after_search(run.found, path) {
                    Stage::ReadFile { path: _ } => match after_read(run.read) {
                        Stage::Publish { bytes: _ } => after_publication(run.published),
                        stage => stage,
                    },
                    stage => stage,
                },
                stage => stage,
            },
            stage => stage,
        },
        stage => stage,
    }
}

/// A save ends in success exactly when every one of its steps succeeds. Otherwise the message is
/// that of the first step that failed, and no later step is taken.
pub proof fn law_save_takes_every_step(
    run: SaveRun,
    shown: String,
    directory: Seq<u8>,
    moment: Moment,
)
    ensures
        last_stage(run, shown, directory, moment) == if run.made is Err {
            failed(Failure::OutputDirectory { directory: shown, error: run.made->Err_0 })
        } else if run.created is Err {
            failed(Failure::Png(run.created->Err_0))
        } else if run.png is Err {
            png_failure(run.png->Err_0)
        } else if run.written is Err {
            failed(Failure::Png(run.written->Err_0))
        } else if !run.found {
            failed(Failure::Display)
        } else if run.read is Err {
            failed(Failure::PngReading(run.read->Err_0))
        } else if run.published is Err {
            failed(Failure::Clipboard(run.published->Err_0))
        } else {
            Stage::Done
        },
{
}

/// The clipboard gets the saved picture: the file in the output directory is the one that is made,
/// written and read, what is written is the encoded picture, and if the file system gives back what
/// was written, these are the bytes offered.
pub proof fn law_clipboard_gets_the_saved_file(
    shown: String,
    directory: Seq<u8>,
    moment: Moment,
    png: Seq<u8>,
    read: Vec<u8>,
)
    requires
        read@ == png,
    ensures
        ({
            let path = crate::paths::file_in(directory, crate::naming::capture_name(moment));
            &&& after_directory(Ok(()), shown, directory, moment) == (Stage::CreateFile { path })
            &&& after_creation(Ok(()), path, Ok(png)) == (Stage::WriteFile { path, bytes: png })
            &&& after_write(Ok(()), path) == (Stage::FindClipboard { path })
            &&& after_search(true, path) == (Stage::ReadFile { path })
            &&& after_read(Ok(read)) == (Stage::Publish { bytes: png })
        }),
{
}

/// Each step of a save that goes well leads to the next, with the same file and the same bytes.
pub proof fn law_each_step_leads_to_the_next(
    shown: String,
    directory: Seq<u8>,
    moment: Moment,
    path: Seq<u8>,
    png: Seq<u8>,
    read: Vec<u8>,
)
    ensures
        after_directory(Ok(()), shown, directory, moment) == (Stage::CreateFile {
            path: crate::paths::file_in(directory, crate::naming::capture_name(moment)),
        }),
        after_creation(Ok(()), path, Ok(png)) == (Stage::WriteFile { path, bytes: png }),
        after_encoding(Ok(png), path) == (Stage::WriteFile { path, bytes: png }),
        after_write(Ok(()), path) == (Stage::FindClipboard { path }),
        after_search(true, path) == (Stage::ReadFile { path }),
        after_read(Ok(read)) == (Stage::Publish { bytes: read@ }),
        after_publication(Ok(())) == Stage::Done,
{
}

/// Each step of a save that fails ends it, with the message for that step and the error whole.
pub proof fn law_each_failing_step_ends_the_save(
    shown: String,
    directory: Seq<u8>,
    moment: Moment,
    path: Seq<u8>,
    png: Result<Seq<u8>, Seq<char>>,
    error: String,
    reason: Seq<char>,
)
    ensures
        after_directory(Err(error), shown, directory, moment) == (Stage::Failed {
            message: "Could not create output directory "@ + shown@ + ": "@ + error@,
        }),
        after_creation(Err(error), path, png) == (Stage::Failed {
            message: "Could not save PNG: "@ + error@,
        }),
        after_creation(Ok(()), path, Err(reason)) == (Stage::Failed {
            message: "Could not save PNG: "@ + reason,
        }),
        after_encoding(Err(reason), path) == (Stage::Failed {
            message: "Could not save PNG: "@ + reason,
        }),
        after_write(Err(error), path) == (Stage::Failed {
            message: "Could not save PNG: "@ + error@,
        }),
        after_search(false, path) == (Stage::Failed {
            message: "No graphical display is available"@,
        }),
        after_read(Err(error)) == (Stage::Failed {
            message: "Could not read saved PNG for clipboard: "@ + error@,
        }),
        after_publication(Err(error)) == (Stage::Failed {
            message: "Could not place PNG in the clipboard: "@ + error@,
        }),
{
}

/// The model of a step has its path, its bytes and its message.
pub proof fn law_stages_keep_paths_and_bytes(path: Vec<u8>, bytes: Vec<u8>, failure: Failure)
    ensures
        (SaveStep::CreateDirectory { path })@ == (Stage::CreateDirectory { path: path@ }),
        (SaveStep::CreateFile { path })@ == (Stage::CreateFile { path: path@ }),
        (SaveStep::WriteFile { path, bytes })@ == (Stage::WriteFile { path: path@, bytes: bytes@ }),
        (SaveStep::FindClipboard { path })@ == (Stage::FindClipboard { path: path@ }),
        (SaveStep::ReadFile { path })@ == (Stage::ReadFile { path: path@ }),
        (SaveStep::Publish { bytes })@ == (Stage::Publish { bytes: bytes@ }),
        SaveStep::Done@ == Stage::Done,
        SaveStep::Failed(failure)@ == (Stage::Failed { message: failure.text() }),
{
}

} // verus!
