//! The program's help and version text.

use vstd::prelude::*;

verus! {

pub const HELP_TEXT: &'static str = "\nfile-renamer v1.0.0 - A file renaming utility\n\n    Usage: \n        file-renamer -h|--help\n        file-renamer -V|--version\n        file-renamer [-d|--directory <dir>] -f|--filter <filter> -n|--new-name <name> [-r] [-v|--verbose]   [--dry-run] [--wildcard-char <char>] [--position-select-wrapper <chars>]\n\n    Options:\n        -h, --help                      Show this help message\n        -v, --version                   Show version information\n        -v, --verbose                   Enable verbose output\n        --dry-run                       Run in dry-run mode aka no changes\n        -r, --recursive                 Recursively process directories\n        -d, --directory                 Base directory to start processing\n        -f, --filter                    Filter to select filenames\n        -n, --new-name                  New name for the files\n        --wildcard-char                 Wildcard character for renaming\n        --position-select-wrapper       Characters used to select wildcard cathched \n                                            strings by position\n\n    Description:\n        This program processes input files and a filter to include files that share specified strings and rename them into a specified name.\n        The program can be run in dry-run mode to see what changes would be made without actually renaming any files.\n        The program can also be run recursively to process all files in a directory and its subdirectories.\n        The program supports wildcard characters to match specific parts of filenames and allows for custom selection of matched strings by position.\n        The program also support use of Counters as wildcard characters to rename files in a sequence. (currently there is no way to order the files so there is no guarantie the counters will be applied in the desired order).\n        The program can be run in verbose mode to see detailed output of the renaming process.\n\n    Examples:\n        file-renamer -d /path/to/directory -f \"*.txt\" -n \"prefix_*\" --wildcard-char * --position-select-wrapper ()\n            result:\n                file1.txt -> prefix_file1.txt\n                file2.txt -> prefix_file2.txt\n        file-renamer -d /path/to/directory -f \"photo_file-$-$-$-.png\" -n \"photo_file$$$.png\" --wildcard-char \"$\"\n            result:\n                photo_file-1-2-3.png -> photo_file123.png\n        file-renamer -d /path/to/directory -f \"{1:1}.avi\" -n \"video_clips*.avi\" --wildcard-char \"*\" \n            result:\n                012014402065465842112.avi -> video_clips1.avi\n                012014402065465d4211c.avi -> video_clips2.avi\n                01201440206546584211a.avi -> video_clips3.avi\n        file-renamer -d /photos/month-day-year/ -f \"photo-*-*-*.png\" -n \"photo-(2)-(0)-(1)-png\" --wildcard-char \"*\" --position-select-wrapper \"()\"\n            result:\n                photo-01-02-2021.png -> photo-2021-01-02-png\n                photo-03-04-2022.png -> photo-2022-03-04-png\n                photo-05-06-2024.png -> photo-2024-05-06-png\n                photo-07-08-2024.png -> photo-2024-07-08-png\n    ";

pub const VERSION_TEXT: &'static str = "file-renamer v1.0.0";

/// The full help text, usage and examples included.
pub fn get_help_string() -> (r: String)
    ensures
        r@ == HELP_TEXT@,
{
    String::from_str(HELP_TEXT)
}

/// The program name and version.
pub fn get_version() -> (r: String)
    ensures
        r@ == VERSION_TEXT@,
{
    String::from_str(VERSION_TEXT)
}

} // verus!
