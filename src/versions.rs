use vstd::prelude::*;

verus! {

/// The mathematical value of a catalog record: its seven fields.
pub struct VersionView {
    pub name: Seq<char>,
    pub tag_name: Seq<char>,
    pub created_at: Seq<char>,
    pub link: Seq<char>,
    pub installer_link: Seq<char>,
    pub git_commit_url: Seq<char>,
    pub archived: bool,
}

/// One entry of a channel's remote catalog. The two links point at the
/// server artifact and at the installer artifact of this version.
pub struct Version {
    name: String,
    tag_name: String,
    created_at: String,
    link: String,
    installer_link: String,
    git_commit_url: String,
    archived: bool,
}

impl View for Version {
    type V = VersionView;

    closed spec fn view(&self) -> VersionView {
        VersionView {
            name: self.name@,
            tag_name: self.tag_name@,
            created_at: self.created_at@,
            link: self.link@,
            installer_link: self.installer_link@,
            git_commit_url: self.git_commit_url@,
            archived: self.archived,
        }
    }
}

impl Version {
    pub fn new(
        name: String,
        tag_name: String,
        created_at: String,
        link: String,
        installer_link: String,
        git_commit_url: String,
        archived: bool,
    ) -> (r: Self)
        ensures
            r@ == (VersionView {
                name: name@,
                tag_name: tag_name@,
                created_at: created_at@,
                link: link@,
                installer_link: installer_link@,
                git_commit_url: git_commit_url@,
                archived,
            }),
    {
        Version { name, tag_name, created_at, link, installer_link, git_commit_url, archived }
    }

    pub fn get_name(&self) -> (r: &String)
        ensures
            r@ == self@.name,
    {
        &self.name
    }

    pub fn get_tag_name(&self) -> (r: &String)
        ensures
            r@ == self@.tag_name,
    {
        &self.tag_name
    }

    pub fn get_created_at(&self) -> (r: &String)
        ensures
            r@ == self@.created_at,
    {
        &self.created_at
    }

    pub fn get_link(&self) -> (r: &String)
        ensures
            r@ == self@.link,
    {
        &self.link
    }

    pub fn get_installer_link(&self) -> (r: &String)
        ensures
            r@ == self@.installer_link,
    {
        &self.installer_link
    }

    pub fn get_git_commit_url(&self) -> (r: &String)
        ensures
            r@ == self@.git_commit_url,
    {
        &self.git_commit_url
    }

    pub fn get_archived(&self) -> (r: &bool)
        ensures
            *r == self@.archived,
    {
        &self.archived
    }
}

} // verus!
