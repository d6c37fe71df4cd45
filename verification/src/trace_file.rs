//! The catalogue of trace files: where each file lies and the cache
//! capacities it is replayed with by default.

use crate::text::same_text;
use vstd::prelude::*;
use vstd::string::StringExecFns;

verus! {

/// The directory that holds the trace files, one sub-directory per group.
pub const DATASET_DIR: &'static str = "./cache-trace";

/// The collection a trace file belongs to.
#[derive(Clone, Copy, Debug, PartialEq, Eq, Structural)]
pub enum TraceFileGroup {
    Arc,
    Lirs,
}

/// The group of a trace file.
pub open spec fn group_of(file: TraceFile) -> TraceFileGroup {
    match file {
        TraceFile::Loop
        | TraceFile::Multi1
        | TraceFile::Multi2
        | TraceFile::Multi3
        | TraceFile::TwoPools
        | TraceFile::Sprite
        | TraceFile::ZigZag => TraceFileGroup::Lirs,
        _ => TraceFileGroup::Arc,
    }
}

/// The sub-directory of a group.
pub open spec fn sub_dir_of(group: TraceFileGroup) -> Seq<char> {
    match group {
        TraceFileGroup::Arc => "arc"@,
        TraceFileGroup::Lirs => "lirs"@,
    }
}

impl TraceFileGroup {
    pub fn new(file: TraceFile) -> (group: TraceFileGroup)
        ensures
            group == group_of(file),
    {
        if matches!(
            file,
            TraceFile::Loop
                | TraceFile::Multi1
                | TraceFile::Multi2
                | TraceFile::Multi3
                | TraceFile::TwoPools
                | TraceFile::Sprite
                | TraceFile::ZigZag
        ) {
            TraceFileGroup::Lirs
        } else {
            TraceFileGroup::Arc
        }
    }

    pub fn sub_dir(&self) -> (dir: &'static str)
        ensures
            dir@ == sub_dir_of(*self),
    {
        match self {
            TraceFileGroup::Arc => "arc",
            TraceFileGroup::Lirs => "lirs",
        }
    }
}

#[derive(Clone, Copy, Debug, PartialEq, Eq, Structural)]
pub enum TraceFile {
    // Traces of the ARC collection.
    ConCat,
    Ds1,
    MergeP,
    MergeS,
    Oltp,
    P1,
    P2,
    P3,
    P4,
    P5,
    P6,
    P7,
    P8,
    P9,
    P10,
    P11,
    P12,
    P13,
    P14,
    S1,
    S2,
    S3,
    Spc1LikeRead,
    // Traces of the LIRS collection.
    Loop,
    Multi1,
    Multi2,
    Multi3,
    TwoPools,
    Sprite,
    // A trace of the LIRS2 collection.
    ZigZag,
}

/// The name of a trace's file within its group's directory.
pub open spec fn file_name_of(file: TraceFile) -> Seq<char> {
    match file {
        TraceFile::ConCat => "ConCat.lis"@,
        TraceFile::Ds1 => "DS1.lis"@,
        TraceFile::MergeP => "MergeP.lis"@,
        TraceFile::MergeS => "MergeS.lis"@,
        TraceFile::Oltp => "OLTP.lis"@,
        TraceFile::P1 => "P1.lis"@,
        TraceFile::P2 => "P2.lis"@,
        TraceFile::P3 => "P3.lis"@,
        TraceFile::P4 => "P4.lis"@,
        TraceFile::P5 => "P5.lis"@,
        TraceFile::P6 => "P6.lis"@,
        TraceFile::P7 => "P7.lis"@,
        TraceFile::P8 => "P8.lis"@,
        TraceFile::P9 => "P9.lis"@,
        TraceFile::P10 => "P10.lis"@,
        TraceFile::P11 => "P11.lis"@,
        TraceFile::P12 => "P12.lis"@,
        TraceFile::P13 => "P13.lis"@,
        TraceFile::P14 => "P14.lis"@,
        TraceFile::S1 => "S1.lis"@,
        TraceFile::S2 => "S2.lis"@,
        TraceFile::S3 => "S3.lis"@,
        TraceFile::Spc1LikeRead => "spc1likeread.lis"@,
        TraceFile::Loop => "loop.trc"@,
        TraceFile::Multi1 => "multi1.trc"@,
        TraceFile::Multi2 => "multi2.trc"@,
        TraceFile::Multi3 => "multi3.trc"@,
        TraceFile::TwoPools => "2_pools.trc"@,
        TraceFile::Sprite => "sprite.trc"@,
        TraceFile::ZigZag => "zigzag.trc"@,
    }
}

/// Where a trace file lies: dataset directory, group, file name.
pub open spec fn path_of(file: TraceFile) -> Seq<char> {
    DATASET_DIR@ + "/"@ + sub_dir_of(group_of(file)) + "/"@ + file_name_of(file)
}

/// The capacities a trace is replayed with unless others are given.
pub open spec fn default_capacities_of(file: TraceFile) -> Seq<usize> {
    match file {
        TraceFile::ConCat => seq![400_000, 3_200_000],
        TraceFile::Ds1 => seq![1_000_000, 4_000_000, 8_000_000],
        TraceFile::MergeP => seq![400_000, 3_200_000],
        TraceFile::MergeS => seq![400_000, 3_200_000],
        TraceFile::Oltp => seq![256, 512, 1_000, 2_000],
        TraceFile::P1 => seq![20_000, 160_000],
        TraceFile::P2 => seq![20_000, 160_000],
        TraceFile::P3 => seq![20_000, 160_000],
        TraceFile::P4 => seq![20_000, 160_000],
        TraceFile::P5 => seq![20_000, 160_000],
        TraceFile::P6 => seq![20_000, 160_000],
        TraceFile::P7 => seq![20_000, 160_000],
        TraceFile::P8 => seq![20_000, 160_000],
        TraceFile::P9 => seq![20_000, 160_000],
        TraceFile::P10 => seq![20_000, 160_000],
        TraceFile::P11 => seq![20_000, 160_000],
        TraceFile::P12 => seq![20_000, 160_000],
        TraceFile::P13 => seq![20_000, 160_000],
        TraceFile::P14 => seq![80_000, 640_000],
        TraceFile::S1 => seq![100_000, 800_000],
        TraceFile::S2 => seq![100_000, 800_000],
        TraceFile::S3 => seq![100_000, 400_000, 800_000],
        TraceFile::Spc1LikeRead => seq![500_000, 40_000_000],
        TraceFile::Loop => seq![256, 512, 768, 1_024],
        TraceFile::Multi1 => seq![128, 256, 512, 768],
        TraceFile::Multi2 => seq![128, 256, 512, 768],
        TraceFile::Multi3 => seq![128, 256, 512, 768],
        TraceFile::TwoPools => seq![128, 256, 512, 768],
        TraceFile::Sprite => seq![128, 256, 512, 768],
        TraceFile::ZigZag => seq![128, 256, 512, 768],
    }
}

/// The trace that goes by `name`, a lower-case name without surrounding
/// blanks.
pub open spec fn trace_file_named(name: Seq<char>) -> Option<TraceFile> {
    if name == "concat"@ {
        Some(TraceFile::ConCat)
    } else if name == "ds1"@ {
        Some(TraceFile::Ds1)
    } else if name == "merge-p"@ {
        Some(TraceFile::MergeP)
    } else if name == "merge-s"@ {
        Some(TraceFile::MergeS)
    } else if name == "oltp"@ {
        Some(TraceFile::Oltp)
    } else if name == "p1"@ {
        Some(TraceFile::P1)
    } else if name == "p2"@ {
        Some(TraceFile::P2)
    } else if name == "p3"@ {
        Some(TraceFile::P3)
    } else if name == "p4"@ {
        Some(TraceFile::P4)
    } else if name == "p5"@ {
        Some(TraceFile::P5)
    } else if name == "p6"@ {
        Some(TraceFile::P6)
    } else if name == "p7"@ {
        Some(TraceFile::P7)
    } else if name == "p8"@ {
        Some(TraceFile::P8)
    } else if name == "p9"@ {
        Some(TraceFile::P9)
    } else if name == "p10"@ {
        Some(TraceFile::P10)
    } else if name == "p11"@ {
        Some(TraceFile::P11)
    } else if name == "p12"@ {
        Some(TraceFile::P12)
    } else if name == "p13"@ {
        Some(TraceFile::P13)
    } else if name == "p14"@ {
        Some(TraceFile::P14)
    } else if name == "s1"@ {
        Some(TraceFile::S1)
    } else if name == "s2"@ {
        Some(TraceFile::S2)
    } else if name == "s3"@ {
        Some(TraceFile::S3)
    } else if name == "spc1likeread"@ {
        Some(TraceFile::Spc1LikeRead)
    } else if name == "loop"@ {
        Some(TraceFile::Loop)
    } else if name == "multi1"@ {
        Some(TraceFile::Multi1)
    } else if name == "multi2"@ {
        Some(TraceFile::Multi2)
    } else if name == "multi3"@ {
        Some(TraceFile::Multi3)
    } else if name == "2-pools"@ {
        Some(TraceFile::ZigZag)
    } else if name == "sprite"@ {
        Some(TraceFile::Sprite)
    } else if name == "zigzag"@ {
        Some(TraceFile::ZigZag)
    } else {
        None
    }
}

impl TraceFile {
    /// Looks a trace up by its lower-case name.
    pub fn from_name(name: &str) -> (file: Option<TraceFile>)
        ensures
            file == trace_file_named(name@),
    {
        if same_text(name, "concat") {
            Some(TraceFile::ConCat)
        } else if same_text(name, "ds1") {
            Some(TraceFile::Ds1)
        } else if same_text(name, "merge-p") {
            Some(TraceFile::MergeP)
        } else if same_text(name, "merge-s") {
            Some(TraceFile::MergeS)
        } else if same_text(name, "oltp") {
            Some(TraceFile::Oltp)
        } else if same_text(name, "p1") {
            Some(TraceFile::P1)
        } else if same_text(name, "p2") {
            Some(TraceFile::P2)
        } else if same_text(name, "p3") {
            Some(TraceFile::P3)
        } else if same_text(name, "p4") {
            Some(TraceFile::P4)
        } else if same_text(name, "p5") {
            Some(TraceFile::P5)
        } else if same_text(name, "p6") {
            Some(TraceFile::P6)
        } else if same_text(name, "p7") {
            Some(TraceFile::P7)
        } else if same_text(name, "p8") {
            Some(TraceFile::P8)
        } else if same_text(name, "p9") {
            Some(TraceFile::P9)
        } else if same_text(name, "p10") {
            Some(TraceFile::P10)
        } else if same_text(name, "p11") {
            Some(TraceFile::P11)
        } else if same_text(name, "p12") {
            Some(TraceFile::P12)
        } else if same_text(name, "p13") {
            Some(TraceFile::P13)
        } else if same_text(name, "p14") {
            Some(TraceFile::P14)
        } else if same_text(name, "s1") {
            Some(TraceFile::S1)
        } else if same_text(name, "s2") {
            Some(TraceFile::S2)
        } else if same_text(name, "s3") {
            Some(TraceFile::S3)
        } else if same_text(name, "spc1likeread") {
            Some(TraceFile::Spc1LikeRead)
        } else if same_text(name, "loop") {
            Some(TraceFile::Loop)
        } else if same_text(name, "multi1") {
            Some(TraceFile::Multi1)
        } else if same_text(name, "multi2") {
            Some(TraceFile::Multi2)
        } else if same_text(name, "multi3") {
            Some(TraceFile::Multi3)
        } else if same_text(name, "2-pools") {
            Some(TraceFile::ZigZag)
        } else if same_text(name, "sprite") {
            Some(TraceFile::Sprite)
        } else if same_text(name, "zigzag") {
            Some(TraceFile::ZigZag)
        } else {
            None
        }
    }

    /// The name of the trace's file within its group's directory.
    pub fn file_name(&self) -> (name: &'static str)
        ensures
            name@ == file_name_of(*self),
    {
        match self {
            TraceFile::ConCat => "ConCat.lis",
            TraceFile::Ds1 => "DS1.lis",
            TraceFile::MergeP => "MergeP.lis",
            TraceFile::MergeS => "MergeS.lis",
            TraceFile::Oltp => "OLTP.lis",
            TraceFile::P1 => "P1.lis",
            TraceFile::P2 => "P2.lis",
            TraceFile::P3 => "P3.lis",
            TraceFile::P4 => "P4.lis",
            TraceFile::P5 => "P5.lis",
            TraceFile::P6 => "P6.lis",
            TraceFile::P7 => "P7.lis",
            TraceFile::P8 => "P8.lis",
            TraceFile::P9 => "P9.lis",
            TraceFile::P10 => "P10.lis",
            TraceFile::P11 => "P11.lis",
            TraceFile::P12 => "P12.lis",
            TraceFile::P13 => "P13.lis",
            TraceFile::P14 => "P14.lis",
            TraceFile::S1 => "S1.lis",
            TraceFile::S2 => "S2.lis",
            TraceFile::S3 => "S3.lis",
            TraceFile::Spc1LikeRead => "spc1likeread.lis",
            TraceFile::Loop => "loop.trc",
            TraceFile::Multi1 => "multi1.trc",
            TraceFile::Multi2 => "multi2.trc",
            TraceFile::Multi3 => "multi3.trc",
            TraceFile::TwoPools => "2_pools.trc",
            TraceFile::Sprite => "sprite.trc",
            TraceFile::ZigZag => "zigzag.trc",
        }
    }

    /// The path of the trace file, below the dataset directory.
    pub fn path(&self) -> (path: String)
        ensures
            path@ == path_of(*self),
    {
        let mut path = String::from_str(DATASET_DIR);
        path.append("/");
        path.append(TraceFileGroup::new(*self).sub_dir());
        path.append("/");
        path.append(self.file_name());
        path
    }

    pub fn default_capacities(&self) -> (capacities: Vec<usize>)
        ensures
            capacities@ == default_capacities_of(*self),
    {
        let capacities = match self {
            TraceFile::ConCat => vec![400_000, 3_200_000],
            TraceFile::Ds1 => vec![1_000_000, 4_000_000, 8_000_000],
            TraceFile::MergeP => vec![400_000, 3_200_000],
            TraceFile::MergeS => vec![400_000, 3_200_000],
            TraceFile::Oltp => vec![256, 512, 1_000, 2_000],
            TraceFile::P1 => vec![20_000, 160_000],
            TraceFile::P2 => vec![20_000, 160_000],
            TraceFile::P3 => vec![20_000, 160_000],
            TraceFile::P4 => vec![20_000, 160_000],
            TraceFile::P5 => vec![20_000, 160_000],
            TraceFile::P6 => vec![20_000, 160_000],
            TraceFile::P7 => vec![20_000, 160_000],
            TraceFile::P8 => vec![20_000, 160_000],
            TraceFile::P9 => vec![20_000, 160_000],
            TraceFile::P10 => vec![20_000, 160_000],
            TraceFile::P11 => vec![20_000, 160_000],
            TraceFile::P12 => vec![20_000, 160_000],
            TraceFile::P13 => vec![20_000, 160_000],
            TraceFile::P14 => vec![80_000, 640_000],
            TraceFile::S1 => vec![100_000, 800_000],
            TraceFile::S2 => vec![100_000, 800_000],
            TraceFile::S3 => vec![100_000, 400_000, 800_000],
            TraceFile::Spc1LikeRead => vec![500_000, 40_000_000],
            TraceFile::Loop => vec![256, 512, 768, 1_024],
            TraceFile::Multi1 => vec![128, 256, 512, 768],
            TraceFile::Multi2 => vec![128, 256, 512, 768],
            TraceFile::Multi3 => vec![128, 256, 512, 768],
            TraceFile::TwoPools => vec![128, 256, 512, 768],
            TraceFile::Sprite => vec![128, 256, 512, 768],
            TraceFile::ZigZag => vec![128, 256, 512, 768],
        };
        assert(capacities@ =~= default_capacities_of(*self));
        capacities
    }
}

} // verus!
