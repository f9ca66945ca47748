use std::collections::HashMap;
use vstd::prelude::*;

verus! {

broadcast use vstd::std_specs::hash::group_hash_axioms;

/// Metadata of a video lesson.
#[derive(Clone, Debug)]
pub struct VideoMetadata {
    pub url: String,
    pub duration: u64,
    pub play_start_at: u64,
    pub play_end_at: u64,
    pub questions: Vec<String>,
}

/// Metadata of an attached file.
#[derive(Clone, Debug)]
pub struct FileMetadata {
    pub is_image: bool,
    pub original_name: String,
    pub url: String,
    pub file_type: String,
    pub size: u64,
}

/// Metadata of an audio lesson.
#[derive(Clone, Debug)]
pub struct AudioMetadata {
    pub url: String,
    pub duration: u64,
    pub play_start_at: u64,
    pub play_end_at: u64,
    pub questions: Vec<String>,
}

/// Inner payload of SCORM content.
#[derive(Clone, Debug)]
pub struct MetaData {
    pub scorm: String,
}

/// Metadata of a SCORM package.
#[derive(Clone, Debug)]
pub struct SCORMMetadata {
    pub media_id: String,
    pub url: String,
    pub meta: MetaData,
}

/// One value per supported language.
#[derive(Clone, Debug)]
pub struct MetadataLanguage<T> {
    pub vn: T,
    pub en: T,
}

/// The kinds of content a course lesson can carry.
#[derive(Clone, Debug)]
pub enum MetadataContent {
    Video(VideoMetadata),
    File(FileMetadata),
    Audio(AudioMetadata),
    SCORM(SCORMMetadata),
}

/// A course: the payload a course token is minted over.
#[derive(Clone, Debug)]
pub struct Course {
    pub course_id: u64,
    pub name: MetadataLanguage<String>,
    pub description: MetadataLanguage<String>,
    pub slug: String,
    pub study_type: String,
    pub avatar_url: String,
    pub expectations_and_goals: MetadataLanguage<String>,
    pub syllabus_id: u64,
    pub metadata: MetadataLanguage<MetadataContent>,
}

/// A minted course token.
#[derive(Clone, Debug)]
pub struct NFT {
    pub token_id: u64,
    pub course: Course,
}

/// The course token registry: a create-if-absent store keyed by the
/// course id.
pub struct CourseRegistry {
    nfts: HashMap<u64, NFT>,
}

impl View for CourseRegistry {
    type V = Map<u64, NFT>;

    closed spec fn view(&self) -> Map<u64, NFT> {
        self.nfts@
    }
}

impl CourseRegistry {
    /// An empty registry.
    pub fn new() -> (r: CourseRegistry)
        ensures
            r@ == Map::<u64, NFT>::empty(),
    {
        CourseRegistry { nfts: HashMap::new() }
    }

    /// Mints the token for `course` under the course's own id; an id
    /// already minted is refused and nothing changes.
    pub fn mint_nft(&mut self, course: Course) -> (r: Result<u64, String>)
        ensures
            old(self)@.contains_key(course.course_id) ==> (r matches Err(e) && e@
                == "NFT with this token ID already exists."@ && final(self)@ == old(self)@),
            !old(self)@.contains_key(course.course_id) ==> r == Ok::<u64, String>(course.course_id)
                && final(self)@ == old(self)@.insert(course.course_id, (NFT {
                token_id: course.course_id,
                course,
            })),
    {
        let token_id = course.course_id;
        if self.nfts.contains_key(&token_id) {
            return Err("NFT with this token ID already exists.".to_owned());
        }
        let nft = NFT { token_id, course };
        self.nfts.insert(token_id, nft);
        Ok(token_id)
    }

    /// The minted token under `token_id`, if any.
    pub fn get_nft(&self, token_id: u64) -> (r: Option<&NFT>)
        ensures
            match r {
                Some(nft) => self@.contains_key(token_id) && *nft == self@[token_id],
                None => !self@.contains_key(token_id),
            },
    {
        self.nfts.get(&token_id)
    }
}

} // verus!
