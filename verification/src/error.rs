//! The pipeline's error taxonomy.

use vstd::prelude::*;
use vstd::string::StringExecFns;

verus! {

/// Every way a transcription request can fail. String payloads carry the
/// human-readable detail of the failure.
#[derive(Debug, Clone)]
pub enum AudioInkError {
    /// Decode-level failure, or no audio track at all.
    Audio(String),
    /// The recognition engine rejected a model or a decoding pass.
    Whisper(String),
    /// The remote-captions path failed.
    YouTube(String),
    /// The requested model artifact is absent on disk.
    ModelNotFound(String),
    /// Fetching a model artifact failed.
    ModelDownload(String),
    /// No decoder matches the container format.
    UnsupportedFormat(String),
    /// The input path cannot be opened, or another file-level failure.
    FileError(String),
    /// The history store failed to read or write.
    Persistence(String),
    /// A network transfer failed.
    Network(String),
    /// An external tool cannot be located; carries the install remedy.
    ToolUnavailable(String),
    /// An external tool ran but exited unsuccessfully; carries its
    /// diagnostic output.
    ToolFailed(String),
    /// The request was cancelled at a chunk boundary.
    Cancelled,
    /// An internal failure.
    Internal(String),
}

/// The rendered form of each error: a fixed prefix naming the failure class,
/// followed by the detail.
pub open spec fn spec_error_message(e: AudioInkError) -> Seq<char> {
    match e {
        AudioInkError::Audio(m) => "Error de audio: "@ + m@,
        AudioInkError::Whisper(m) => "Error de Whisper: "@ + m@,
        AudioInkError::YouTube(m) => "Error de YouTube: "@ + m@,
        AudioInkError::ModelNotFound(m) => "Modelo no encontrado: "@ + m@,
        AudioInkError::ModelDownload(m) => "Error al descargar modelo: "@ + m@,
        AudioInkError::UnsupportedFormat(m) => "Formato de archivo no soportado: "@ + m@,
        AudioInkError::FileError(m) => "Error de archivo: "@ + m@,
        AudioInkError::Persistence(m) => "Error de persistencia: "@ + m@,
        AudioInkError::Network(m) => "Error de red: "@ + m@,
        AudioInkError::ToolUnavailable(m) => m@,
        AudioInkError::ToolFailed(m) => "Herramienta externa fallo: "@ + m@,
        AudioInkError::Cancelled => "Operacion cancelada"@,
        AudioInkError::Internal(m) => "Error interno: "@ + m@,
    }
}

impl AudioInkError {
    /// The single human-readable message shown for this error.
    pub fn message(&self) -> (r: String)
        ensures
            r@ == spec_error_message(*self),
    {
        match self {
            AudioInkError::Audio(m) => String::from_str("Error de audio: ").concat(m.as_str()),
            AudioInkError::Whisper(m) => String::from_str("Error de Whisper: ").concat(m.as_str()),
            AudioInkError::YouTube(m) => String::from_str("Error de YouTube: ").concat(m.as_str()),
            AudioInkError::ModelNotFound(m) => String::from_str("Modelo no encontrado: ").concat(
                m.as_str(),
            ),
            AudioInkError::ModelDownload(m) => String::from_str(
                "Error al descargar modelo: ",
            ).concat(m.as_str()),
            AudioInkError::UnsupportedFormat(m) => String::from_str(
                "Formato de archivo no soportado: ",
            ).concat(m.as_str()),
            AudioInkError::FileError(m) => String::from_str("Error de archivo: ").concat(
                m.as_str(),
            ),
            AudioInkError::Persistence(m) => String::from_str("Error de persistencia: ").concat(
                m.as_str(),
            ),
            AudioInkError::Network(m) => String::from_str("Error de red: ").concat(m.as_str()),
            AudioInkError::ToolUnavailable(m) => m.clone(),
            AudioInkError::ToolFailed(m) => String::from_str("Herramienta externa fallo: ").concat(
                m.as_str(),
            ),
            AudioInkError::Cancelled => String::from_str("Operacion cancelada"),
            AudioInkError::Internal(m) => String::from_str("Error interno: ").concat(m.as_str()),
        }
    }
}

/// Result type of the pipeline's operations.
pub type AudioInkResult<T> = Result<T, AudioInkError>;

} // verus!
