//! Install remedies for the external tools the pipeline invokes. When a tool
//! cannot be located, the error surfaced to the user carries one of these
//! actionable messages rather than a bare "not found".

use vstd::prelude::*;

verus! {

/// How to install the media retrieval tool.
pub fn get_ytdlp_install_instructions() -> (r: &'static str)
    ensures
        r@ == spec_ytdlp_instructions(),
{
    "yt-dlp is not installed. Please install it with your package manager:\n  Ubuntu/Debian: sudo apt install yt-dlp\n  Fedora: sudo dnf install yt-dlp\n  Arch: sudo pacman -S yt-dlp"
}

pub open spec fn spec_ytdlp_instructions() -> Seq<char> {
    "yt-dlp is not installed. Please install it with your package manager:\n  Ubuntu/Debian: sudo apt install yt-dlp\n  Fedora: sudo dnf install yt-dlp\n  Arch: sudo pacman -S yt-dlp"@
}

/// How to install the transcoding tool.
pub fn get_ffmpeg_install_instructions() -> (r: &'static str)
    ensures
        r@ == spec_ffmpeg_instructions(),
{
    "ffmpeg is not installed. Please install it with your package manager:\n  Ubuntu/Debian: sudo apt install ffmpeg\n  Fedora: sudo dnf install ffmpeg\n  Arch: sudo pacman -S ffmpeg"
}

pub open spec fn spec_ffmpeg_instructions() -> Seq<char> {
    "ffmpeg is not installed. Please install it with your package manager:\n  Ubuntu/Debian: sudo apt install ffmpeg\n  Fedora: sudo dnf install ffmpeg\n  Arch: sudo pacman -S ffmpeg"@
}

} // verus!
