//! Finding out which services a supervisor has loaded.

use crate::ident::{idents, Ident, PackageIdent};
use crate::text::same_text;
use vstd::prelude::*;

verus! {

/// What a supervisor's message holds.
#[derive(Clone, Copy, Debug, PartialEq, Eq, Structural)]
pub enum MessageKind {
    /// The status of a loaded service.
    ServiceStatus,
    /// Word that all is well.
    NetOk,
    /// An error.
    NetErr,
    /// Something that is no answer to a request for the status.
    Unexpected,
}

/// What a message of that identifier holds.
pub open spec fn kind_of(message_id: Seq<char>) -> MessageKind {
    if message_id == "ServiceStatus"@ {
        MessageKind::ServiceStatus
    } else if message_id == "NetOk"@ {
        MessageKind::NetOk
    } else if message_id == "NetErr"@ {
        MessageKind::NetErr
    } else {
        MessageKind::Unexpected
    }
}

/// What a message of that identifier holds, and so how it is to be decoded.
pub fn message_kind(message_id: &str) -> (kind: MessageKind)
    ensures
        kind == kind_of(message_id@),
{
    if same_text(message_id, "ServiceStatus") {
        MessageKind::ServiceStatus
    } else if same_text(message_id, "NetOk") {
        MessageKind::NetOk
    } else if same_text(message_id, "NetErr") {
        MessageKind::NetErr
    } else {
        MessageKind::Unexpected
    }
}

/// What comes back from a supervisor that was asked for the status of its services.
#[derive(Debug, PartialEq, Eq)]
pub enum Reply {
    /// The status of the service that runs this package.
    ServiceStatus(PackageIdent),
    /// Word that all is well.
    NetOk,
    /// An error.
    NetErr,
    /// A message that does not answer the question.
    Unexpected,
    /// A message that did not come through or could not be decoded.
    Broken,
    /// No more messages.
    End,
}

/// What comes back, as mathematical values.
pub ghost enum ReplyView {
    ServiceStatus(Ident),
    NetOk,
    NetErr,
    Unexpected,
    Broken,
    End,
}

impl View for Reply {
    type V = ReplyView;

    open spec fn view(&self) -> ReplyView {
        match *self {
            Reply::ServiceStatus(ident) => ReplyView::ServiceStatus(ident@),
            Reply::NetOk => ReplyView::NetOk,
            Reply::NetErr => ReplyView::NetErr,
            Reply::Unexpected => ReplyView::Unexpected,
            Reply::Broken => ReplyView::Broken,
            Reply::End => ReplyView::End,
        }
    }
}

/// Whether more replies are wanted.
#[derive(Clone, Copy, Debug, PartialEq, Eq, Structural)]
pub enum ListStage {
    /// More replies are wanted.
    Listening,
    /// The list is complete.
    Complete,
    /// The last reply was an error, which is the outcome.
    Failed,
}

/// The list of loaded services, as mathematical values.
pub ghost struct ServicesView {
    pub stage: ListStage,
    pub services: Seq<Ident>,
}

/// The list after a reply. A list that is complete or has failed does not change any more.
pub open spec fn listen(list: ServicesView, reply: ReplyView) -> ServicesView {
    if list.stage != ListStage::Listening {
        list
    } else {
        match reply {
            ReplyView::ServiceStatus(ident) => ServicesView {
                services: list.services.push(ident),
                ..list
            },
            ReplyView::NetOk => list,
            ReplyView::Unexpected => list,
            ReplyView::NetErr => ServicesView { stage: ListStage::Failed, ..list },
            ReplyView::Broken => ServicesView { stage: ListStage::Failed, ..list },
            ReplyView::End => ServicesView { stage: ListStage::Complete, ..list },
        }
    }
}

/// The reply is to be warned of.
pub open spec fn warns(list: ServicesView, reply: ReplyView) -> bool {
    list.stage == ListStage::Listening && reply is Unexpected
}

/// The list before any reply: without a launcher there is no supervisor to ask, and no service
/// is loaded.
pub open spec fn unheard(launcher_is_running: bool) -> ServicesView {
    ServicesView {
        stage: if launcher_is_running {
            ListStage::Listening
        } else {
            ListStage::Complete
        },
        services: seq![],
    }
}

/// The list of loaded services, in the making.
#[derive(Debug)]
pub struct SupervisorServices {
    stage: ListStage,
    services: Vec<PackageIdent>,
}

impl View for SupervisorServices {
    type V = ServicesView;

    closed spec fn view(&self) -> ServicesView {
        ServicesView { stage: self.stage, services: idents(self.services@) }
    }
}

/// Lists the services that the supervisor has loaded.
pub fn supervisor_services(launcher_is_running: bool) -> (list: SupervisorServices)
    ensures
        list@ == unheard(launcher_is_running),
{
    let list = SupervisorServices {
        stage: if launcher_is_running {
            ListStage::Listening
        } else {
            ListStage::Complete
        },
        services: Vec::new(),
    };
    assert(list@.services =~= seq![]);
    list
}

impl SupervisorServices {
    /// Whether more replies are wanted.
    pub fn stage(&self) -> (stage: ListStage)
        ensures
            stage == self@.stage,
    {
        self.stage
    }

    /// Takes a reply. Tells whether to warn of it as unexpected.
    pub fn step(&mut self, reply: Reply) -> (warn: bool)
        ensures
            final(self)@ == listen(old(self)@, reply@),
            warn == (old(self)@.stage == ListStage::Listening && reply@ is Unexpected),
            warn == warns(old(self)@, reply@),
    {
        match self.stage {
            ListStage::Listening => {},
            _ => {
                return false;
            },
        }
        match reply {
            Reply::ServiceStatus(ident) => {
                self.services.push(ident);
                assert(self@.services =~= old(self)@.services.push(ident@));
            },
            Reply::NetOk => {},
            Reply::NetErr => {
                self.stage = ListStage::Failed;
            },
            Reply::Unexpected => {
                return true;
            },
            Reply::Broken => {
                self.stage = ListStage::Failed;
            },
            Reply::End => {
                self.stage = ListStage::Complete;
            },
        }
        false
    }

    /// The list of loaded services, if it is complete: a list that is still in the making, or has
    /// failed, is no list.
    pub fn outcome(self) -> (outcome: Option<Vec<PackageIdent>>)
        ensures
            outcome is Some == (self@.stage == ListStage::Complete),
            outcome is Some ==> idents(outcome->0@) == self@.services,
    {
        match self.stage {
            ListStage::Complete => Some(self.services),
            _ => None,
        }
    }

    /// The services heard of so far.
    pub fn into_services(self) -> (services: Vec<PackageIdent>)
        ensures
            idents(services@) == self@.services,
    {
        self.services
    }
}

/// The list after all these replies.
pub open spec fn listen_all(list: ServicesView, replies: Seq<ReplyView>) -> ServicesView
    decreases replies.len(),
{
    if replies.len() == 0 {
        list
    } else {
        listen(listen_all(list, replies.drop_last()), replies.last())
    }
}

/// The packages of which the replies give a status, in the order of the replies.
pub open spec fn statuses(replies: Seq<ReplyView>) -> Seq<Ident>
    decreases replies.len(),
{
    if replies.len() == 0 {
        seq![]
    } else {
        match replies.last() {
            ReplyView::ServiceStatus(ident) => statuses(replies.drop_last()).push(ident),
            _ => statuses(replies.drop_last()),
        }
    }
}

/// The reply is an error.
pub open spec fn is_error(reply: ReplyView) -> bool {
    reply is NetErr || reply is Broken
}

/// As long as no error comes, the list holds exactly the packages of which a status came, in that
/// order, and is complete when the replies end.
pub proof fn law_services_are_those_with_a_status(replies: Seq<ReplyView>)
    requires
        forall|i: int|
            0 <= i < replies.len() ==> !is_error(#[trigger] replies[i]) && !(replies[i] is End),
    ensures
        listen_all(unheard(true), replies) == (ServicesView {
            stage: ListStage::Listening,
            services: statuses(replies),
        }),
        listen(listen_all(unheard(true), replies), ReplyView::End) == (ServicesView {
            stage: ListStage::Complete,
            services: statuses(replies),
        }),
    decreases replies.len(),
{
    if replies.len() > 0 {
        assert(!is_error(replies[replies.len() - 1]));
        assert forall|i: int| 0 <= i < replies.drop_last().len() implies !is_error(
            #[trigger] replies.drop_last()[i],
        ) && !(replies.drop_last()[i] is End) by {
            assert(!is_error(replies[i]));
        }
        law_services_are_those_with_a_status(replies.drop_last());
    }
}

/// An error ends the list: whatever comes after it, the list has failed.
pub proof fn law_an_error_is_the_outcome(
    list: ServicesView,
    error: ReplyView,
    later: Seq<ReplyView>,
)
    requires
        list.stage == ListStage::Listening,
        is_error(error),
    ensures
        listen_all(listen(list, error), later).stage == ListStage::Failed,
    decreases later.len(),
{
    if later.len() > 0 {
        law_an_error_is_the_outcome(list, error, later.drop_last());
    }
}

/// Without a launcher no service is loaded, and no reply is wanted.
pub proof fn law_no_launcher_no_services(replies: Seq<ReplyView>)
    ensures
        listen_all(unheard(false), replies) == (ServicesView {
            stage: ListStage::Complete,
            services: Seq::<Ident>::empty(),
        }),
    decreases replies.len(),
{
    if replies.len() > 0 {
        law_no_launcher_no_services(replies.drop_last());
    }
}

/// A reply says what it holds.
pub proof fn law_reply_says_what_it_holds(r: Reply)
    ensures
        r matches Reply::ServiceStatus(ident) ==> r@ == ReplyView::ServiceStatus(ident@),
        r is NetOk ==> r@ == ReplyView::NetOk,
        r is NetErr ==> r@ == ReplyView::NetErr,
        r is Unexpected ==> r@ == ReplyView::Unexpected,
        r is Broken ==> r@ == ReplyView::Broken,
        r is End ==> r@ == ReplyView::End,
{
}

/// A message is what its identifier says, letter for letter, and unexpected under any other.
pub proof fn law_messages_go_by_their_identifiers(message_id: Seq<char>)
    ensures
        (kind_of(message_id) == MessageKind::ServiceStatus) == (message_id == "ServiceStatus"@),
        (kind_of(message_id) == MessageKind::NetOk) == (message_id == "NetOk"@),
        (kind_of(message_id) == MessageKind::NetErr) == (message_id == "NetErr"@),
        (kind_of(message_id) == MessageKind::Unexpected) == (message_id != "ServiceStatus"@
            && message_id != "NetOk"@ && message_id != "NetErr"@),
{
    reveal_strlit("ServiceStatus");
    reveal_strlit("NetOk");
    reveal_strlit("NetErr");
    assert("ServiceStatus"@.len() != "NetOk"@.len());
    assert("ServiceStatus"@.len() != "NetErr"@.len());
    assert("NetOk"@.len() != "NetErr"@.len());
}

/// While more replies are wanted, a status adds its package at the end of the list and nothing else
/// changes it; the list goes on after all replies but an error, with which it fails, and the end,
/// with which it is complete. After that no reply changes anything. Exactly a message that does not
/// answer the question, while replies are wanted, is warned of.
pub proof fn law_each_reply_does_its_part(list: ServicesView, reply: ReplyView)
    ensures
        list.stage != ListStage::Listening ==> listen(list, reply) == list && !warns(list, reply),
        list.stage == ListStage::Listening ==> {
            let after = listen(list, reply);
            &&& reply matches ReplyView::ServiceStatus(ident) ==> {
                &&& after.stage == ListStage::Listening
                &&& after.services.len() == list.services.len() + 1
                &&& after.services.last() == ident
                &&& after.services.drop_last() == list.services
            }
            &&& !(reply is ServiceStatus) ==> after.services == list.services
            &&& (reply is NetOk || reply is Unexpected) ==> after.stage == ListStage::Listening
            &&& (reply is NetErr || reply is Broken) ==> after.stage == ListStage::Failed
            &&& reply is End ==> after.stage == ListStage::Complete
            &&& warns(list, reply) == reply is Unexpected
        },
        unheard(true).stage == ListStage::Listening,
        unheard(false).stage == ListStage::Complete,
        unheard(true).services.len() == 0,
        unheard(false).services.len() == 0,
{
    if let ReplyView::ServiceStatus(ident) = reply {
        assert(list.services.push(ident).drop_last() =~= list.services);
    }
}

} // verus!
