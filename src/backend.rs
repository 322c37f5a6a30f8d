//! The candidate source: the projects to pick from, and the sequences of
//! each project, as fixed in-memory lists.

use vstd::prelude::*;

verus! {

/// The names of all projects, in the order in which they are offered.
pub open spec fn projects() -> Seq<Seq<char>> {
    seq![
        "some_very_long_project_name"@,
        "some_other_long_project_name"@,
        "project_001"@,
        "project_002"@,
        "man_vs_bee"@,
        "pipeline_testing_2022_2"@,
        "asset_library_2024"@,
        "asset_library_2023"@,
        "rt_sandbox_2024"@,
        "rnd_sandbox_2024"@,
    ]
}

/// The sequences of the project named `project`; none for a project that
/// has no sequences or is unknown.
pub open spec fn sequences_of(project: Seq<char>) -> Seq<Seq<char>> {
    if project == "some_very_long_project_name"@ {
        seq!["seq001"@, "seq002"@]
    } else if project == "project_001"@ {
        seq!["seq002"@, "seq003"@]
    } else if project == "project_002"@ {
        seq!["seq001"@, "seq002"@]
    } else {
        seq![]
    }
}

/// The full list of projects.
pub fn get_projects() -> (r: Vec<String>)
    ensures
        r.deep_view() == projects(),
{
    let r = vec![
        String::from_str("some_very_long_project_name"),
        String::from_str("some_other_long_project_name"),
        String::from_str("project_001"),
        String::from_str("project_002"),
        String::from_str("man_vs_bee"),
        String::from_str("pipeline_testing_2022_2"),
        String::from_str("asset_library_2024"),
        String::from_str("asset_library_2023"),
        String::from_str("rt_sandbox_2024"),
        String::from_str("rnd_sandbox_2024"),
    ];
    assert(r.deep_view() =~= projects());
    r
}

/// The sequences of the project named `project_name`.
pub fn get_sequences(project_name: &str) -> (r: Vec<String>)
    ensures
        r.deep_view() == sequences_of(project_name@),
{
    let name = project_name.to_owned();
    let r = if name == String::from_str("some_very_long_project_name") {
        vec![String::from_str("seq001"), String::from_str("seq002")]
    } else if name == String::from_str("project_001") {
        vec![String::from_str("seq002"), String::from_str("seq003")]
    } else if name == String::from_str("project_002") {
        vec![String::from_str("seq001"), String::from_str("seq002")]
    } else {
        Vec::new()
    };
    assert(r.deep_view() =~= sequences_of(project_name@));
    r
}

} // verus!
