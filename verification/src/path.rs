//! File system paths, as the list of their components.

use std::path::Component::{CurDir, Normal, ParentDir, Prefix, RootDir};
use std::path::Path;
use std::path::Prefix::{DeviceNS, Disk, Verbatim, VerbatimDisk, VerbatimUNC, UNC};

use vstd::prelude::*;
use vstd::utf8::encode_utf8;

use crate::order::{
    is_total_order, lex_le, lex_le_antisymmetric, lex_le_total, lex_le_transitive,
    sequences_differ_first,
};
use crate::text::{join, joined, texts_of};

verus! {

/// A drive or share that a path starts with, as paths of Windows have it. Names are kept as
/// the bytes of the platform's encoding.
#[derive(Debug, PartialEq, Eq)]
pub enum PathPrefix {
    /// `\\?\name`
    Verbatim(Vec<u8>),
    /// `\\?\UNC\server\share`
    VerbatimShare(Vec<u8>, Vec<u8>),
    /// `\\?\C:`
    VerbatimDrive(u8),
    /// `\\.\name`
    Device(Vec<u8>),
    /// `\\server\share`
    Share(Vec<u8>, Vec<u8>),
    /// `C:`
    Drive(u8),
}

/// What a prefix stands for. The letters of drives are in upper case.
pub enum PrefixModel {
    Verbatim(Seq<u8>),
    VerbatimShare(Seq<u8>, Seq<u8>),
    VerbatimDrive(u8),
    Device(Seq<u8>),
    Share(Seq<u8>, Seq<u8>),
    Drive(u8),
}

/// The letter in upper case, if it is one of ASCII.
pub open spec fn upper(letter: u8) -> u8 {
    if 97 <= letter <= 122 {
        (letter - 32) as u8
    } else {
        letter
    }
}

impl View for PathPrefix {
    type V = PrefixModel;

    open spec fn view(&self) -> PrefixModel {
        match *self {
            PathPrefix::Verbatim(name) => PrefixModel::Verbatim(name@),
            PathPrefix::VerbatimShare(server, share) => {
                PrefixModel::VerbatimShare(server@, share@)
            },
            PathPrefix::VerbatimDrive(letter) => PrefixModel::VerbatimDrive(upper(letter)),
            PathPrefix::Device(name) => PrefixModel::Device(name@),
            PathPrefix::Share(server, share) => PrefixModel::Share(server@, share@),
            PathPrefix::Drive(letter) => PrefixModel::Drive(upper(letter)),
        }
    }
}

/// One component of a path. Names are kept as the bytes of the platform's encoding.
#[derive(Debug, PartialEq, Eq)]
pub enum PathPart {
    /// A drive or share.
    Prefix(PathPrefix),
    /// The root directory.
    Root,
    /// A leading `.`.
    CurrentDir,
    /// `..`
    ParentDir,
    /// A name.
    Normal(Vec<u8>),
}

/// What a path component stands for.
pub enum PartModel {
    Prefix(PrefixModel),
    Root,
    CurrentDir,
    ParentDir,
    Normal(Seq<u8>),
}

impl View for PathPart {
    type V = PartModel;

    open spec fn view(&self) -> PartModel {
        match *self {
            PathPart::Prefix(prefix) => PartModel::Prefix(prefix@),
            PathPart::Root => PartModel::Root,
            PathPart::CurrentDir => PartModel::CurrentDir,
            PathPart::ParentDir => PartModel::ParentDir,
            PathPart::Normal(name) => PartModel::Normal(name@),
        }
    }
}

/// A path: its components, which decide where it leads, and the text that shows it.
#[derive(Debug)]
pub struct FilePath {
    pub parts: Vec<PathPart>,
    pub text: String,
}

/// What a path stands for.
pub struct PathModel {
    pub parts: Seq<PartModel>,
    pub text: Seq<char>,
}

impl View for FilePath {
    type V = PathModel;

    open spec fn view(&self) -> PathModel {
        PathModel { parts: parts_of(self.parts@), text: self.text@ }
    }
}

/// The models of a list of components.
pub open spec fn parts_of(parts: Seq<PathPart>) -> Seq<PartModel> {
    parts.map_values(|part: PathPart| part@)
}

/// The models of a list of paths.
pub open spec fn paths_of(paths: Seq<FilePath>) -> Seq<PathModel> {
    paths.map_values(|path: FilePath| path@)
}

impl PathModel {
    /// Both paths have the same components, so they lead to the same place. Their texts may
    /// differ, by a trailing separator for one.
    pub open spec fn same_place(self, other: PathModel) -> bool {
        self.parts == other.parts
    }

    /// The components of `base` are the first components of this path.
    pub open spec fn is_within(self, base: PathModel) -> bool {
        base.parts.is_prefix_of(self.parts)
    }

    /// Without its last component this path leads where `other` leads. A path that ends in a
    /// root or a prefix, and the empty path, have no parent.
    pub open spec fn has_parent(self, other: PathModel) -> bool {
        &&& self.parts.len() > 0
        &&& self.parts.last() !is Root
        &&& self.parts.last() !is Prefix
        &&& self.parts.drop_last() == other.parts
    }

    /// The path is one single name.
    pub open spec fn is_single_name(self) -> bool {
        is_single_name(self.parts)
    }

    /// Paths are ordered by their components.
    pub open spec fn le(self, other: PathModel) -> bool {
        lex_le(self.parts, other.parts, part_order())
    }
}

/// The components are one single name.
pub open spec fn is_single_name(parts: Seq<PartModel>) -> bool {
    parts.len() == 1 && parts[0] is Normal
}

/// Bytes in the order of their values.
pub open spec fn byte_order() -> spec_fn(u8, u8) -> bool {
    |left: u8, right: u8| left <= right
}

/// Names in the order of their bytes.
pub open spec fn name_order() -> spec_fn(Seq<u8>, Seq<u8>) -> bool {
    |left: Seq<u8>, right: Seq<u8>| lex_le(left, right, byte_order())
}

/// Where a kind of component stands in the order of components.
pub open spec fn part_rank(part: PartModel) -> int {
    match part {
        PartModel::Prefix(PrefixModel::Verbatim(_)) => 0,
        PartModel::Prefix(PrefixModel::VerbatimShare(_, _)) => 1,
        PartModel::Prefix(PrefixModel::VerbatimDrive(_)) => 2,
        PartModel::Prefix(PrefixModel::Device(_)) => 3,
        PartModel::Prefix(PrefixModel::Share(_, _)) => 4,
        PartModel::Prefix(PrefixModel::Drive(_)) => 5,
        PartModel::Root => 6,
        PartModel::CurrentDir => 7,
        PartModel::ParentDir => 8,
        PartModel::Normal(_) => 9,
    }
}

/// The names in a component.
pub open spec fn part_names(part: PartModel) -> Seq<Seq<u8>> {
    match part {
        PartModel::Prefix(PrefixModel::Verbatim(name)) => seq![name],
        PartModel::Prefix(PrefixModel::VerbatimShare(server, share)) => seq![server, share],
        PartModel::Prefix(PrefixModel::VerbatimDrive(letter)) => seq![seq![letter]],
        PartModel::Prefix(PrefixModel::Device(name)) => seq![name],
        PartModel::Prefix(PrefixModel::Share(server, share)) => seq![server, share],
        PartModel::Prefix(PrefixModel::Drive(letter)) => seq![seq![letter]],
        PartModel::Normal(name) => seq![name],
        _ => Seq::empty(),
    }
}

proof fn ranks_and_names_tell_parts_apart(left: PartModel, right: PartModel)
    requires
        part_rank(left) == part_rank(right),
        part_names(left) == part_names(right),
    ensures
        left == right,
{
    let (first, second) = (part_names(left), part_names(right));
    assert(first.len() > 0 ==> first[0] == second[0]);
    assert(first.len() > 1 ==> first[1] == second[1]);
    assert(first.len() > 0 && first[0].len() > 0 ==> first[0][0] == second[0][0]);
}

/// Components are ordered by kind: the kinds of prefixes, root, current directory, parent
/// directory, name. Two of one kind are ordered by the bytes of their names.
pub open spec fn part_le(left: PartModel, right: PartModel) -> bool {
    ||| part_rank(left) < part_rank(right)
    ||| part_rank(left) == part_rank(right) && lex_le(
        part_names(left),
        part_names(right),
        name_order(),
    )
}

/// `part_le` as a value.
pub open spec fn part_order() -> spec_fn(PartModel, PartModel) -> bool {
    |left: PartModel, right: PartModel| part_le(left, right)
}

proof fn part_order_is_total()
    ensures
        is_total_order(part_order()),
{
    let le = part_order();
    let names = name_order();
    assert(is_total_order(byte_order()));
    assert forall|x: Seq<u8>, y: Seq<u8>| #[trigger] names(x, y) || names(y, x) by {
        lex_le_total(x, y, byte_order());
    }
    assert forall|x: Seq<u8>, y: Seq<u8>, z: Seq<u8>| #[trigger]
        names(x, y) && #[trigger] names(y, z) implies names(x, z) by {
        lex_le_transitive(x, y, z, byte_order());
    }
    assert forall|x: Seq<u8>, y: Seq<u8>| #[trigger] names(x, y) && names(y, x) implies x == y by {
        lex_le_antisymmetric(x, y, byte_order());
    }
    assert(is_total_order(names));
    assert forall|x: PartModel, y: PartModel| #[trigger] le(x, y) || le(y, x) by {
        lex_le_total(part_names(x), part_names(y), names);
    }
    assert forall|x: PartModel, y: PartModel, z: PartModel| #[trigger]
        le(x, y) && #[trigger] le(y, z) implies le(x, z) by {
        if part_rank(x) == part_rank(y) && part_rank(y) == part_rank(z) {
            lex_le_transitive(part_names(x), part_names(y), part_names(z), names);
        }
    }
    assert forall|x: PartModel, y: PartModel| #[trigger] le(x, y) && le(y, x) implies x == y by {
        lex_le_antisymmetric(part_names(x), part_names(y), names);
        ranks_and_names_tell_parts_apart(x, y);
    }
}

/// Of two paths one may always stand before the other.
pub proof fn path_le_total(left: PathModel, right: PathModel)
    ensures
        left.le(right) || right.le(left),
{
    part_order_is_total();
    lex_le_total(left.parts, right.parts, part_order());
}

/// The order of paths is transitive.
pub proof fn path_le_transitive(a: PathModel, b: PathModel, c: PathModel)
    requires
        a.le(b),
        b.le(c),
    ensures
        a.le(c),
{
    part_order_is_total();
    lex_le_transitive(a.parts, b.parts, c.parts, part_order());
}

/// Two paths that may each stand before the other lead to the same place.
pub proof fn path_le_antisymmetric(a: PathModel, b: PathModel)
    requires
        a.le(b),
        b.le(a),
    ensures
        a.same_place(b),
{
    part_order_is_total();
    lex_le_antisymmetric(a.parts, b.parts, part_order());
}

/// A path lies within its parent, and within itself.
pub proof fn path_is_within_its_parent(path: PathModel, parent: PathModel)
    requires
        path.has_parent(parent),
    ensures
        path.is_within(parent),
        path.is_within(path),
        !parent.is_within(path),
{
}

fn bytes_equal(left: &Vec<u8>, right: &Vec<u8>) -> (r: bool)
    ensures
        r == (left@ == right@),
{
    if left.len() != right.len() {
        return false;
    }
    let mut i: usize = 0;
    while i < left.len()
        invariant
            i <= left.len(),
            left.len() == right.len(),
            forall|j: int| 0 <= j < i ==> left@[j] == right@[j],
        decreases left.len() - i,
    {
        if left[i] != right[i] {
            return false;
        }
        i = i + 1;
    }
    assert(left@ =~= right@);
    true
}

fn bytes_le(left: &Vec<u8>, right: &Vec<u8>) -> (r: bool)
    ensures
        r == lex_le(left@, right@, byte_order()),
{
    let mut i: usize = 0;
    assert(left@.skip(0) == left@);
    assert(right@.skip(0) == right@);
    while i < left.len()
        invariant
            i <= left.len(),
            i <= right.len(),
            lex_le(left@, right@, byte_order()) == lex_le(
                left@.skip(i as int),
                right@.skip(i as int),
                byte_order(),
            ),
        decreases left.len() - i,
    {
        if i >= right.len() {
            return false;
        }
        if left[i] != right[i] {
            return left[i] < right[i];
        }
        assert(left@.skip(i as int).drop_first() == left@.skip(i + 1));
        assert(right@.skip(i as int).drop_first() == right@.skip(i + 1));
        i = i + 1;
    }
    true
}

fn clone_bytes(bytes: &Vec<u8>) -> (r: Vec<u8>)
    ensures
        r@ == bytes@,
{
    let r = bytes.clone();
    assert(r@ =~= bytes@);
    r
}

/// The models of a list of names.
pub open spec fn names_of(names: Seq<Vec<u8>>) -> Seq<Seq<u8>> {
    names.map_values(|name: Vec<u8>| name@)
}

fn names_equal(left: &Vec<Vec<u8>>, right: &Vec<Vec<u8>>) -> (r: bool)
    ensures
        r == (names_of(left@) == names_of(right@)),
{
    assert(names_of(left@).len() == left.len() && names_of(right@).len() == right.len());
    if left.len() != right.len() {
        return false;
    }
    let mut i: usize = 0;
    while i < left.len()
        invariant
            i <= left.len(),
            left.len() == right.len(),
            forall|j: int| 0 <= j < i ==> (#[trigger] names_of(left@)[j]) == names_of(right@)[j],
        decreases left.len() - i,
    {
        assert(names_of(left@)[i as int] == left@[i as int]@);
        assert(names_of(right@)[i as int] == right@[i as int]@);
        if !bytes_equal(&left[i], &right[i]) {
            return false;
        }
        i = i + 1;
    }
    assert(names_of(left@) =~= names_of(right@));
    true
}

fn names_le(left: &Vec<Vec<u8>>, right: &Vec<Vec<u8>>) -> (r: bool)
    ensures
        r == lex_le(names_of(left@), names_of(right@), name_order()),
{
    let ghost first = names_of(left@);
    let ghost second = names_of(right@);
    let mut i: usize = 0;
    assert(first.skip(0) == first);
    assert(second.skip(0) == second);
    while i < left.len()
        invariant
            i <= left.len(),
            i <= right.len(),
            first == names_of(left@),
            second == names_of(right@),
            lex_le(first, second, name_order()) == lex_le(
                first.skip(i as int),
                second.skip(i as int),
                name_order(),
            ),
        decreases left.len() - i,
    {
        if i >= right.len() {
            return false;
        }
        assert(first.skip(i as int)[0] == left@[i as int]@);
        assert(second.skip(i as int)[0] == right@[i as int]@);
        if !bytes_equal(&left[i], &right[i]) {
            return bytes_le(&left[i], &right[i]);
        }
        assert(first.skip(i as int).drop_first() == first.skip(i + 1));
        assert(second.skip(i as int).drop_first() == second.skip(i + 1));
        i = i + 1;
    }
    true
}

fn one_name(name: &Vec<u8>) -> (r: Vec<Vec<u8>>)
    ensures
        names_of(r@) == seq![name@],
{
    let mut names: Vec<Vec<u8>> = Vec::new();
    names.push(clone_bytes(name));
    assert(names_of(names@) =~= seq![name@]);
    names
}

fn two_names(first: &Vec<u8>, second: &Vec<u8>) -> (r: Vec<Vec<u8>>)
    ensures
        names_of(r@) == seq![first@, second@],
{
    let mut names: Vec<Vec<u8>> = Vec::new();
    names.push(clone_bytes(first));
    names.push(clone_bytes(second));
    assert(names_of(names@) =~= seq![first@, second@]);
    names
}

fn drive_name(letter: u8) -> (r: Vec<Vec<u8>>)
    ensures
        names_of(r@) == seq![seq![upper(letter)]],
{
    let mut name: Vec<u8> = Vec::new();
    name.push(
        if 97 <= letter && letter <= 122 {
            letter - 32
        } else {
            letter
        },
    );
    assert(name@ =~= seq![upper(letter)]);
    one_name(&name)
}

impl PathPart {
    fn rank(&self) -> (r: u8)
        ensures
            r == part_rank(self@),
    {
        match self {
            PathPart::Prefix(PathPrefix::Verbatim(_)) => 0,
            PathPart::Prefix(PathPrefix::VerbatimShare(_, _)) => 1,
            PathPart::Prefix(PathPrefix::VerbatimDrive(_)) => 2,
            PathPart::Prefix(PathPrefix::Device(_)) => 3,
            PathPart::Prefix(PathPrefix::Share(_, _)) => 4,
            PathPart::Prefix(PathPrefix::Drive(_)) => 5,
            PathPart::Root => 6,
            PathPart::CurrentDir => 7,
            PathPart::ParentDir => 8,
            PathPart::Normal(_) => 9,
        }
    }

    fn names(&self) -> (r: Vec<Vec<u8>>)
        ensures
            names_of(r@) == part_names(self@),
    {
        match self {
            PathPart::Prefix(PathPrefix::Verbatim(name)) => one_name(name),
            PathPart::Prefix(PathPrefix::VerbatimShare(server, share)) => two_names(server, share),
            PathPart::Prefix(PathPrefix::VerbatimDrive(letter)) => drive_name(*letter),
            PathPart::Prefix(PathPrefix::Device(name)) => one_name(name),
            PathPart::Prefix(PathPrefix::Share(server, share)) => two_names(server, share),
            PathPart::Prefix(PathPrefix::Drive(letter)) => drive_name(*letter),
            PathPart::Normal(name) => one_name(name),
            _ => {
                let names: Vec<Vec<u8>> = Vec::new();
                assert(names_of(names@) =~= Seq::empty());
                names
            },
        }
    }

    fn is_same(&self, other: &PathPart) -> (r: bool)
        ensures
            r == (self@ == other@),
    {
        if self.rank() != other.rank() || !names_equal(&self.names(), &other.names()) {
            return false;
        }
        proof {
            ranks_and_names_tell_parts_apart(self@, other@);
        }
        true
    }

    fn is_le(&self, other: &PathPart) -> (r: bool)
        ensures
            r == part_le(self@, other@),
    {
        let left = self.rank();
        let right = other.rank();
        if left != right {
            return left < right;
        }
        names_le(&self.names(), &other.names())
    }
}

impl Clone for PathPrefix {
    fn clone(&self) -> (r: Self)
        ensures
            r@ == self@,
    {
        match self {
            PathPrefix::Verbatim(name) => PathPrefix::Verbatim(clone_bytes(name)),
            PathPrefix::VerbatimShare(server, share) => {
                PathPrefix::VerbatimShare(clone_bytes(server), clone_bytes(share))
            },
            PathPrefix::VerbatimDrive(letter) => PathPrefix::VerbatimDrive(*letter),
            PathPrefix::Device(name) => PathPrefix::Device(clone_bytes(name)),
            PathPrefix::Share(server, share) => {
                PathPrefix::Share(clone_bytes(server), clone_bytes(share))
            },
            PathPrefix::Drive(letter) => PathPrefix::Drive(*letter),
        }
    }
}

impl Clone for PathPart {
    fn clone(&self) -> (r: Self)
        ensures
            r@ == self@,
    {
        match self {
            PathPart::Prefix(prefix) => PathPart::Prefix(prefix.clone()),
            PathPart::Root => PathPart::Root,
            PathPart::CurrentDir => PathPart::CurrentDir,
            PathPart::ParentDir => PathPart::ParentDir,
            PathPart::Normal(name) => PathPart::Normal(clone_bytes(name)),
        }
    }
}

/// Clones a list of components.
pub fn clone_parts(parts: &Vec<PathPart>) -> (r: Vec<PathPart>)
    ensures
        parts_of(r@) == parts_of(parts@),
{
    let mut out: Vec<PathPart> = Vec::new();
    let mut i: usize = 0;
    while i < parts.len()
        invariant
            i <= parts.len(),
            out.len() == i,
            forall|j: int| 0 <= j < i ==> (#[trigger] out@[j])@ == parts@[j]@,
        decreases parts.len() - i,
    {
        out.push(parts[i].clone());
        i = i + 1;
    }
    assert(parts_of(out@) =~= parts_of(parts@));
    out
}

impl Clone for FilePath {
    fn clone(&self) -> (r: Self)
        ensures
            r@ == self@,
    {
        FilePath { parts: clone_parts(&self.parts), text: self.text.clone() }
    }
}

/// Copies a list of paths.
pub fn clone_paths(paths: &Vec<FilePath>) -> (r: Vec<FilePath>)
    ensures
        paths_of(r@) == paths_of(paths@),
{
    let mut out: Vec<FilePath> = Vec::new();
    let mut i: usize = 0;
    while i < paths.len()
        invariant
            i <= paths.len(),
            out.len() == i,
            forall|j: int| 0 <= j < i ==> (#[trigger] out@[j])@ == paths@[j]@,
        decreases paths.len() - i,
    {
        out.push(paths[i].clone());
        i = i + 1;
    }
    assert(paths_of(out@) =~= paths_of(paths@));
    out
}

/// The texts that show a list of paths.
pub open spec fn path_texts(paths: Seq<PathModel>) -> Seq<Seq<char>> {
    paths.map_values(|path: PathModel| path.text)
}

/// Joins the texts of paths with a separator between them.
pub fn join_paths(paths: &Vec<FilePath>, separator: &str) -> (r: String)
    ensures
        r@ == joined(path_texts(paths_of(paths@)), separator@),
{
    let mut texts: Vec<String> = Vec::new();
    let mut i: usize = 0;
    while i < paths.len()
        invariant
            i <= paths.len(),
            texts.len() == i,
            forall|j: int| 0 <= j < i ==> (#[trigger] texts@[j])@ == paths@[j]@.text,
        decreases paths.len() - i,
    {
        texts.push(paths[i].text.clone());
        i = i + 1;
    }
    assert(texts_of(texts@) =~= path_texts(paths_of(paths@)));
    join(&texts, separator)
}

impl PartialEq for FilePath {
    fn eq(&self, other: &Self) -> (r: bool) {
        self.is_same_place(other)
    }
}

impl vstd::std_specs::cmp::PartialEqSpecImpl for FilePath {
    open spec fn obeys_eq_spec() -> bool {
        true
    }

    open spec fn eq_spec(&self, other: &Self) -> bool {
        self@.same_place(other@)
    }
}

impl Eq for FilePath {
}

impl FilePath {
    /// A path from its components and the text that shows it.
    pub fn new(parts: Vec<PathPart>, text: String) -> (r: Self)
        ensures
            r.parts == parts,
            r.text == text,
    {
        FilePath { parts, text }
    }

    /// Tells whether two paths lead to the same place.
    pub fn is_same_place(&self, other: &FilePath) -> (r: bool)
        ensures
            r == self@.same_place(other@),
    {
        assert(self@.parts.len() == self.parts.len() && other@.parts.len() == other.parts.len());
        self.parts.len() == other.parts.len() && self.starts_with(other)
    }

    /// Tells whether this path lies within `base`, component by component.
    pub fn starts_with(&self, base: &FilePath) -> (r: bool)
        ensures
            r == self@.is_within(base@),
            self.parts.len() == base.parts.len() ==> r == self@.same_place(base@),
    {
        if base.parts.len() > self.parts.len() {
            return false;
        }
        let mut i: usize = 0;
        while i < base.parts.len()
            invariant
                i <= base.parts.len() <= self.parts.len(),
                forall|j: int| 0 <= j < i ==> (#[trigger] base@.parts[j]) == self@.parts[j],
            decreases base.parts.len() - i,
        {
            assert(base@.parts[i as int] == base.parts@[i as int]@);
            assert(self@.parts[i as int] == self.parts@[i as int]@);
            if !self.parts[i].is_same(&base.parts[i]) {
                return false;
            }
            i = i + 1;
        }
        assert(base@.parts =~= self@.parts.take(base@.parts.len() as int));
        assert(self.parts.len() == base.parts.len() ==> base@.parts =~= self@.parts);
        true
    }

    /// Tells whether `parent` is the directory that holds this path.
    pub fn is_child_of(&self, parent: &FilePath) -> (r: bool)
        ensures
            r == self@.has_parent(parent@),
    {
        let len = self.parts.len();
        assert(self@.parts.len() == len && parent@.parts.len() == parent.parts.len());
        if len == 0 {
            return false;
        }
        assert(self@.parts.last() == self.parts@[len - 1]@);
        let named = match &self.parts[len - 1] {
            PathPart::Root => false,
            PathPart::Prefix(_) => false,
            _ => true,
        };
        if !named || parent.parts.len() != len - 1 {
            return false;
        }
        let r = self.starts_with(parent);
        assert(self@.parts.drop_last() == self@.parts.take(len - 1));
        assert(r ==> self@.parts.take(len - 1) =~= parent@.parts);
        r
    }

    /// Tells whether this path may stand before `other` in a sorted list.
    pub fn is_le(&self, other: &FilePath) -> (r: bool)
        ensures
            r == self@.le(other@),
    {
        let mut i: usize = 0;
        assert(self@.parts.skip(0) == self@.parts);
        assert(other@.parts.skip(0) == other@.parts);
        while i < self.parts.len()
            invariant
                i <= self.parts.len(),
                i <= other.parts.len(),
                lex_le(self@.parts, other@.parts, part_order()) == lex_le(
                    self@.parts.skip(i as int),
                    other@.parts.skip(i as int),
                    part_order(),
                ),
            decreases self.parts.len() - i,
        {
            if i >= other.parts.len() {
                return false;
            }
            assert(self@.parts.skip(i as int)[0] == self.parts@[i as int]@);
            assert(other@.parts.skip(i as int)[0] == other.parts@[i as int]@);
            if !self.parts[i].is_same(&other.parts[i]) {
                return self.parts[i].is_le(&other.parts[i]);
            }
            assert(self@.parts.skip(i as int).drop_first() == self@.parts.skip(i + 1));
            assert(other@.parts.skip(i as int).drop_first() == other@.parts.skip(i + 1));
            i = i + 1;
        }
        true
    }
}

/// A text that parts at its slashes alone on every platform: nowhere in it stands a backslash
/// or a colon, and it does not start with two slashes.
pub open spec fn is_simple_path(text: Seq<char>) -> bool {
    &&& forall|i: int| 0 <= i < text.len() ==> (#[trigger] text[i]) != '\\' && text[i] != ':'
    &&& !(text.len() > 1 && text[0] == '/' && text[1] == '/')
}

/// The pieces of a text between its slashes.
pub open spec fn pieces(text: Seq<char>) -> Seq<Seq<char>>
    decreases text.len(),
{
    match text.index_of_first('/') {
        Some(at) if 0 <= at < text.len() => seq![text.take(at)] + pieces(text.skip(at + 1)),
        _ => seq![text],
    }
}

/// The components that a piece of a path stands for. A `.` stands for one only where the path
/// starts with it.
pub open spec fn piece_parts(piece: Seq<char>, is_first: bool) -> Seq<PartModel> {
    if piece.len() == 0 || piece == seq!['.'] && !is_first {
        Seq::empty()
    } else if piece == seq!['.'] {
        seq![PartModel::CurrentDir]
    } else if piece == seq!['.', '.'] {
        seq![PartModel::ParentDir]
    } else {
        seq![PartModel::Normal(encode_utf8(piece))]
    }
}

/// The components that pieces of a path stand for.
pub open spec fn pieces_parts(pieces: Seq<Seq<char>>, are_first: bool) -> Seq<PartModel>
    decreases pieces.len(),
{
    if pieces.len() == 0 {
        Seq::empty()
    } else {
        piece_parts(pieces[0], are_first) + pieces_parts(pieces.drop_first(), false)
    }
}

/// The components of a simple path.
pub open spec fn simple_parts(text: Seq<char>) -> Seq<PartModel> {
    let root = if text.len() > 0 && text[0] == '/' {
        seq![PartModel::Root]
    } else {
        Seq::empty()
    };
    root + pieces_parts(pieces(text), true)
}

/// A text that is one name on every platform: not empty, neither `.` nor `..`, and without
/// the characters that part or prefix a path anywhere.
pub open spec fn is_plain_name(text: Seq<char>) -> bool {
    &&& text.len() > 0
    &&& text != seq!['.']
    &&& text != seq!['.', '.']
    &&& forall|i: int|
        0 <= i < text.len() ==> (#[trigger] text[i]) != '/' && text[i] != '\\' && text[i] != ':'
}

/// A plain name is a path of one component.
pub proof fn plain_names_are_single(text: Seq<char>)
    requires
        is_plain_name(text),
    ensures
        is_simple_path(text),
        simple_parts(text) == seq![PartModel::Normal(encode_utf8(text))],
{
    assert(!text.contains('/'));
    text.index_of_first_ensures('/');
    assert(pieces(text) == seq![text]);
    assert(seq![text].drop_first() == Seq::<Seq<char>>::empty());
    reveal_with_fuel(pieces_parts, 2);
    assert(simple_parts(text) =~= seq![PartModel::Normal(encode_utf8(text))]);
}

/// What parts a path on some platform.
pub open spec fn is_separator(c: char) -> bool {
    c == '/' || c == '\\'
}

/// The first `n` characters can be the one name that a path is: they are no `.` or `..`, no
/// slash is among them, and nothing follows but separators, with a `.` between two of them or
/// at the end.
pub open spec fn can_be_name(text: Seq<char>, n: int) -> bool {
    &&& 0 < n <= text.len()
    &&& text.take(n) != seq!['.']
    &&& text.take(n) != seq!['.', '.']
    &&& forall|i: int| 0 <= i < n ==> (#[trigger] text[i]) != '/'
    &&& forall|i: int|
        n <= i < text.len() ==> is_separator(#[trigger] text[i]) || text[i] == '.' && i > n
            && is_separator(text[i - 1]) && (i + 1 == text.len() || is_separator(text[i + 1]))
}

/// The components are one name that the text starts with, and nothing else of the text is a
/// component.
pub open spec fn is_leading_name(text: Seq<char>, parts: Seq<PartModel>) -> bool {
    exists|n: int| #[trigger]
        can_be_name(text, n) && parts == seq![PartModel::Normal(encode_utf8(text.take(n)))]
}

/// Calls `std::path::Path::components` on a text. Claimed of it: a simple path parts at its
/// slashes, with what stands between them as names but for `.` and `..`; and where the
/// components of any text are one single name, the text starts with that name, and nothing
/// follows it but separators and names `.`. Left unsaid is what else comes of texts with
/// backslashes, colons or two leading slashes, which depends on the platform.
#[verifier::external_body]
pub(crate) fn components(text: &str) -> (r: Vec<PathPart>)
    ensures
        is_simple_path(text@) ==> parts_of(r@) == simple_parts(text@),
        is_single_name(parts_of(r@)) ==> is_leading_name(text@, parts_of(r@)),
{
    let bytes = |name| Path::new(name).as_os_str().as_encoded_bytes().to_vec();
    Path::new(text).components().map(|part| match part {
        Prefix(prefix) => PathPart::Prefix(match prefix.kind() {
            Verbatim(name) => PathPrefix::Verbatim(bytes(name)),
            VerbatimUNC(host, share) => PathPrefix::VerbatimShare(bytes(host), bytes(share)),
            VerbatimDisk(letter) => PathPrefix::VerbatimDrive(letter),
            DeviceNS(name) => PathPrefix::Device(bytes(name)),
            UNC(host, share) => PathPrefix::Share(bytes(host), bytes(share)),
            Disk(letter) => PathPrefix::Drive(letter),
        }),
        RootDir => PathPart::Root,
        CurDir => PathPart::CurrentDir,
        ParentDir => PathPart::ParentDir,
        Normal(name) => PathPart::Normal(bytes(name)),
    }).collect()
}

/// A path lies within another exactly where it goes on from it by further components, be it
/// none.
pub proof fn paths_within_go_on(base: PathModel, rest: Seq<PartModel>, path: PathModel)
    ensures
        path.parts == base.parts + rest ==> path.is_within(base),
        path.is_within(base) ==> base.parts.len() <= path.parts.len() && path.parts == base.parts
            + path.parts.skip(base.parts.len() as int),
        path.same_place(base) <==> path.parts == base.parts,
        path.same_place(base) <==> path.is_within(base) && base.is_within(path),
{
    if path.parts == base.parts + rest {
        assert(base.parts =~= path.parts.take(base.parts.len() as int));
    }
    if path.is_within(base) {
        assert(path.parts =~= base.parts + path.parts.skip(base.parts.len() as int));
        if base.is_within(path) {
            assert(path.parts =~= base.parts);
        }
    }
    if path.parts == base.parts {
        assert(path.parts.take(path.parts.len() as int) =~= path.parts);
    }
}

/// The parent of a path is what it goes on from by one component, unless that is a root or a
/// prefix.
pub proof fn parents_are_one_component_shorter(
    path: PathModel,
    parent: PathModel,
    part: PartModel,
)
    ensures
        path.parts == parent.parts.push(part) ==> (path.has_parent(parent) <==> !(part is Root)
            && !(part is Prefix)),
        path.has_parent(parent) ==> path.parts.len() == parent.parts.len() + 1 && path.parts
            == parent.parts.push(path.parts.last()),
{
    if path.parts == parent.parts.push(part) {
        assert(path.parts.drop_last() =~= parent.parts);
    }
    if path.has_parent(parent) {
        assert(path.parts =~= parent.parts.push(path.parts.last()));
    }
}

/// Paths are ordered at their first different component; a path comes before those below it.
pub proof fn paths_are_ordered_at_the_first_difference(left: PathModel, right: PathModel, n: int)
    requires
        0 <= n <= left.parts.len(),
        n <= right.parts.len(),
        forall|i: int| 0 <= i < n ==> #[trigger] left.parts[i] == right.parts[i],
    ensures
        n == left.parts.len() ==> left.le(right),
        n == right.parts.len() && n < left.parts.len() ==> !left.le(right),
        n < left.parts.len() && n < right.parts.len() && left.parts[n] != right.parts[n] ==> (
        left.le(right) <==> part_le(left.parts[n], right.parts[n])),
{
    sequences_differ_first(left.parts, right.parts, n, part_order());
}

/// Components are ordered by kind, and names by their bytes at the first difference, with a
/// name before those that it begins.
pub proof fn components_are_ordered_by_kind_and_name(
    prefix: PrefixModel,
    left: Seq<u8>,
    right: Seq<u8>,
    n: int,
)
    ensures
        part_le(PartModel::Prefix(prefix), PartModel::Root) && !part_le(
            PartModel::Root,
            PartModel::Prefix(prefix),
        ),
        part_le(PartModel::Root, PartModel::CurrentDir) && !part_le(
            PartModel::CurrentDir,
            PartModel::Root,
        ),
        part_le(PartModel::CurrentDir, PartModel::ParentDir) && !part_le(
            PartModel::ParentDir,
            PartModel::CurrentDir,
        ),
        part_le(PartModel::ParentDir, PartModel::Normal(left)) && !part_le(
            PartModel::Normal(left),
            PartModel::ParentDir,
        ),
        0 <= n <= left.len() && n <= right.len() && (forall|i: int|
            0 <= i < n ==> #[trigger] left[i] == right[i]) ==> {
            &&& n == left.len() ==> part_le(PartModel::Normal(left), PartModel::Normal(right))
            &&& n == right.len() && n < left.len() ==> !part_le(
                PartModel::Normal(left),
                PartModel::Normal(right),
            )
            &&& n < left.len() && n < right.len() && left[n] != right[n] ==> (part_le(
                PartModel::Normal(left),
                PartModel::Normal(right),
            ) <==> left[n] < right[n])
        },
{
    if 0 <= n <= left.len() && n <= right.len() && (forall|i: int|
        0 <= i < n ==> #[trigger] left[i] == right[i]) {
        sequences_differ_first(left, right, n, byte_order());
        let (first, second) = (seq![left], seq![right]);
        assert(first.drop_first() =~= Seq::<Seq<u8>>::empty());
        if left == right {
            sequences_differ_first(first, second, 1, name_order());
        } else {
            sequences_differ_first(first, second, 0, name_order());
            assert(first[0] != second[0]);
        }
        if n == left.len() && n == right.len() {
            assert(left =~= right);
        }
    }
}

/// A path stands for its components and its text, and a list of paths for each of them.
pub proof fn paths_stand_for_all_they_hold(path: FilePath, paths: Seq<FilePath>)
    ensures
        path@.text == path.text@,
        path@.parts.len() == path.parts@.len(),
        forall|i: int| 0 <= i < path.parts@.len() ==> #[trigger] path@.parts[i] == path.parts@[i]@,
        forall|i: int|
            0 <= i < path.parts@.len() ==> (path.parts@[i] matches PathPart::Normal(name) ==> (
            #[trigger] path@.parts[i]) == PartModel::Normal(name@)),
        paths_of(paths).len() == paths.len(),
        forall|i: int| 0 <= i < paths.len() ==> #[trigger] paths_of(paths)[i] == paths[i]@,
        is_single_name(path@.parts) <==> path.parts@.len() == 1 && path.parts@[0] is Normal,
{
    if path.parts@.len() == 1 {
        assert(path@.parts[0] == path.parts@[0]@);
    }
}

/// Prefixes are ordered by kind, with drives of either sort by their letter, and shares by the
/// server and then by the share.
pub proof fn prefixes_are_ordered_by_kind(
    name: Seq<u8>,
    other: Seq<u8>,
    share: Seq<u8>,
    letter: u8,
    later: u8,
)
    ensures
        ({
            let verbatim = PartModel::Prefix(PrefixModel::Verbatim(name));
            let verbatim_share = PartModel::Prefix(PrefixModel::VerbatimShare(name, share));
            let verbatim_drive = PartModel::Prefix(PrefixModel::VerbatimDrive(letter));
            let device = PartModel::Prefix(PrefixModel::Device(name));
            let plain_share = PartModel::Prefix(PrefixModel::Share(name, share));
            let drive = PartModel::Prefix(PrefixModel::Drive(letter));
            &&& part_le(verbatim, verbatim_share) && !part_le(verbatim_share, verbatim)
            &&& part_le(verbatim_share, verbatim_drive) && !part_le(verbatim_drive, verbatim_share)
            &&& part_le(verbatim_drive, device) && !part_le(device, verbatim_drive)
            &&& part_le(device, plain_share) && !part_le(plain_share, device)
            &&& part_le(plain_share, drive) && !part_le(drive, plain_share)
        }),
        part_le(
            PartModel::Prefix(PrefixModel::Drive(letter)),
            PartModel::Prefix(PrefixModel::Drive(later)),
        ) <==> letter <= later,
        part_le(
            PartModel::Prefix(PrefixModel::VerbatimDrive(letter)),
            PartModel::Prefix(PrefixModel::VerbatimDrive(later)),
        ) <==> letter <= later,
        part_le(
            PartModel::Prefix(PrefixModel::Verbatim(name)),
            PartModel::Prefix(PrefixModel::Verbatim(other)),
        ) <==> lex_le(name, other, byte_order()),
        part_le(
            PartModel::Prefix(PrefixModel::Device(name)),
            PartModel::Prefix(PrefixModel::Device(other)),
        ) <==> lex_le(name, other, byte_order()),
{
    reveal_with_fuel(lex_le, 3);
    assert(seq![name].drop_first() =~= Seq::<Seq<u8>>::empty());
    assert(seq![other].drop_first() =~= Seq::<Seq<u8>>::empty());
    assert(seq![letter].drop_first() =~= Seq::<u8>::empty());
    assert(seq![later].drop_first() =~= Seq::<u8>::empty());
    assert(seq![seq![letter]].drop_first() =~= Seq::<Seq<u8>>::empty());
    assert(seq![seq![later]].drop_first() =~= Seq::<Seq<u8>>::empty());
    if letter != later {
        assert(seq![letter][0] != seq![later][0]);
        assert(seq![seq![letter]][0] != seq![seq![later]][0]);
    }
    assert(byte_order()(letter, letter));
    lex_le_total(name, name, byte_order());
}

/// A component stands for its kind and its names; the letter of a drive does so in upper case.
pub proof fn components_stand_for_all_they_hold(part: PathPart, letter: u8)
    ensures
        part is Root <==> part@ is Root,
        part is CurrentDir <==> part@ is CurrentDir,
        part is ParentDir <==> part@ is ParentDir,
        part matches PathPart::Normal(name) ==> part@ == PartModel::Normal(name@),
        part matches PathPart::Prefix(prefix) ==> part@ == PartModel::Prefix(prefix@) && (
        match prefix {
            PathPrefix::Verbatim(name) => prefix@ == PrefixModel::Verbatim(name@),
            PathPrefix::VerbatimShare(server, share) => prefix@ == PrefixModel::VerbatimShare(
                server@,
                share@,
            ),
            PathPrefix::VerbatimDrive(drive) => prefix@ == PrefixModel::VerbatimDrive(upper(drive)),
            PathPrefix::Device(name) => prefix@ == PrefixModel::Device(name@),
            PathPrefix::Share(server, share) => prefix@ == PrefixModel::Share(server@, share@),
            PathPrefix::Drive(drive) => prefix@ == PrefixModel::Drive(upper(drive)),
        }),
        97 <= letter <= 122 ==> upper(letter) + 32 == letter,
        letter < 97 || letter > 122 ==> upper(letter) == letter,
{
}

/// Two paths are equal exactly where all their components are, whatever text shows them.
pub proof fn equal_paths_have_the_same_components(left: FilePath, right: FilePath)
    ensures
        vstd::std_specs::cmp::PartialEqSpec::eq_spec(&left, &right) <==> left@.parts
            == right@.parts,
{
}

} // verus!
