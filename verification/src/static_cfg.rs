use vstd::prelude::*;

verus! {

/// The decoder's static configuration: where the encoded trace and the
/// binary images live, and which sinks are enabled. The surrounding
/// program fills it from its configuration file and command line.
#[derive(Debug)]
pub struct DecoderStaticCfg {
    pub encoded_trace: String,
    pub application_binary_asid_tuples: Vec<(String, String)>,
    pub sbi_binary: String,
    pub kernel_binary: String,
    pub kernel_jump_label_patch_log: String,
    pub driver_binary_entry_tuples: Vec<(String, String)>,
    pub header_only: bool,
    pub to_stats: bool,
    pub to_txt: bool,
    pub to_stack_txt: bool,
    pub to_atomics: bool,
    pub to_afdo: bool,
    pub gcno: String,
    pub to_gcda: bool,
    pub to_speedscope: bool,
    pub to_perfetto: bool,
    pub to_vbb: bool,
    pub to_path_profile: bool,
}

} // verus!
