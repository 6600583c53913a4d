//! The syntax tree that the parser builds: a class, its methods, and the
//! expressions of their bodies.
//!
//! Every node owns its children. Each type has a view in which text is a
//! sequence of characters and a list is a sequence; the contracts of the
//! parser speak of the views.

use vstd::hash_map::StringHashMap;
use vstd::prelude::*;

verus! {

pub struct Class {
    pub name: String,
    pub superclass: Option<String>,
    pub instance_methods: Methods,
    pub instance_variables: Vec<String>,
    pub class_methods: Methods,
    pub class_variables: Vec<String>,
}

/// The methods of one side of a class, each under its selector. The
/// selectors are kept in the order in which they first came.
pub struct Methods {
    table: StringHashMap<Method>,
    selectors: Vec<String>,
}

#[allow(inconsistent_fields)]
#[derive(Debug, PartialEq)]
pub enum Expression {
    Assignment { variable: String, value: Box<Expression> },
    BinaryMessage { message: String, left: Box<Expression>, right: Box<Expression> },
    Block { parameters: Vec<String>, locals: Vec<String>, body: Vec<Expression> },
    KeywordMessage { message: String, receiver: Box<Expression>, parameters: Vec<Expression> },
    LiteralArray(Vec<Expression>),
    LiteralBoolean(bool),
    /// A decimal number, kept as it was written: the digits with the period
    /// among them, and whether a minus stood before them.
    LiteralDouble { negative: bool, text: String },
    LiteralInteger(i64),
    LiteralNil,
    LiteralString(String),
    LiteralSymbol(String),
    Return(Box<Expression>),
    UnaryMessage { message: String, receiver: Box<Expression> },
    Variable(String),
}

#[derive(Debug, PartialEq)]
pub enum Method {
    Primitive { name: String, parameters: Vec<String> },
    Native { name: String, parameters: Vec<String>, locals: Vec<String>, body: Vec<Expression> },
}

#[allow(inconsistent_fields)]
pub enum ExpressionView {
    Assignment { variable: Seq<char>, value: Box<ExpressionView> },
    BinaryMessage { message: Seq<char>, left: Box<ExpressionView>, right: Box<ExpressionView> },
    Block { parameters: Seq<Seq<char>>, locals: Seq<Seq<char>>, body: Seq<ExpressionView> },
    KeywordMessage {
        message: Seq<char>,
        receiver: Box<ExpressionView>,
        parameters: Seq<ExpressionView>,
    },
    LiteralArray(Seq<ExpressionView>),
    LiteralBoolean(bool),
    LiteralDouble { negative: bool, text: Seq<char> },
    LiteralInteger(int),
    LiteralNil,
    LiteralString(Seq<char>),
    LiteralSymbol(Seq<char>),
    Return(Box<ExpressionView>),
    UnaryMessage { message: Seq<char>, receiver: Box<ExpressionView> },
    Variable(Seq<char>),
}

pub enum MethodView {
    Primitive { name: Seq<char>, parameters: Seq<Seq<char>> },
    Native {
        name: Seq<char>,
        parameters: Seq<Seq<char>>,
        locals: Seq<Seq<char>>,
        body: Seq<ExpressionView>,
    },
}

pub struct MethodsView {
    pub selectors: Seq<Seq<char>>,
    pub methods: Map<Seq<char>, MethodView>,
}

pub struct ClassView {
    pub name: Seq<char>,
    pub superclass: Option<Seq<char>>,
    pub instance_methods: MethodsView,
    pub instance_variables: Seq<Seq<char>>,
    pub class_methods: MethodsView,
    pub class_variables: Seq<Seq<char>>,
}

impl Expression {
    /// The expression as a value.
    pub open spec fn model(&self) -> ExpressionView
        decreases self,
    {
        match self {
            Expression::Assignment { variable, value } => ExpressionView::Assignment {
                variable: variable@,
                value: Box::new(value.model()),
            },
            Expression::BinaryMessage { message, left, right } => ExpressionView::BinaryMessage {
                message: message@,
                left: Box::new(left.model()),
                right: Box::new(right.model()),
            },
            Expression::Block { parameters, locals, body } => ExpressionView::Block {
                parameters: parameters.deep_view(),
                locals: locals.deep_view(),
                body: Seq::new(
                    body.len() as nat,
                    |i: int|
                        if 0 <= i < body.len() {
                            body[i].model()
                        } else {
                            ExpressionView::LiteralNil
                        },
                ),
            },
            Expression::KeywordMessage { message, receiver, parameters } => {
                ExpressionView::KeywordMessage {
                    message: message@,
                    receiver: Box::new(receiver.model()),
                    parameters: Seq::new(
                        parameters.len() as nat,
                        |i: int|
                            if 0 <= i < parameters.len() {
                                parameters[i].model()
                            } else {
                                ExpressionView::LiteralNil
                            },
                    ),
                }
            },
            Expression::LiteralArray(values) => ExpressionView::LiteralArray(
                Seq::new(
                    values.len() as nat,
                    |i: int|
                        if 0 <= i < values.len() {
                            values[i].model()
                        } else {
                            ExpressionView::LiteralNil
                        },
                ),
            ),
            Expression::LiteralBoolean(value) => ExpressionView::LiteralBoolean(*value),
            Expression::LiteralDouble { negative, text } => ExpressionView::LiteralDouble {
                negative: *negative,
                text: text@,
            },
            Expression::LiteralInteger(value) => ExpressionView::LiteralInteger(*value as int),
            Expression::LiteralNil => ExpressionView::LiteralNil,
            Expression::LiteralString(text) => ExpressionView::LiteralString(text@),
            Expression::LiteralSymbol(text) => ExpressionView::LiteralSymbol(text@),
            Expression::Return(value) => ExpressionView::Return(Box::new(value.model())),
            Expression::UnaryMessage { message, receiver } => ExpressionView::UnaryMessage {
                message: message@,
                receiver: Box::new(receiver.model()),
            },
            Expression::Variable(name) => ExpressionView::Variable(name@),
        }
    }

    /// The view of a list of expressions is the list of their views.
    pub proof fn lemma_model_of_list(self)
        ensures
            self matches Expression::Block { body, .. } ==> self.model() matches ExpressionView::Block {
                body: b,
                ..
            } && b == body.deep_view(),
            self matches Expression::KeywordMessage { parameters, .. } ==> self.model() matches ExpressionView::KeywordMessage {
                parameters: p,
                ..
            } && p == parameters.deep_view(),
            self matches Expression::LiteralArray(values) ==> self.model() matches ExpressionView::LiteralArray(
                v,
            ) && v == values.deep_view(),
    {
        match self {
            Expression::Block { body, .. } => {
                assert(self.model()->Block_body =~= body.deep_view());
            },
            Expression::KeywordMessage { parameters, .. } => {
                assert(self.model()->KeywordMessage_parameters =~= parameters.deep_view());
            },
            Expression::LiteralArray(values) => {
                assert(self.model()->LiteralArray_0 =~= values.deep_view());
            },
            _ => {},
        }
    }
}

impl DeepView for Expression {
    type V = ExpressionView;

    open spec fn deep_view(&self) -> ExpressionView {
        self.model()
    }
}

impl DeepView for Method {
    type V = MethodView;

    open spec fn deep_view(&self) -> MethodView {
        match self {
            Method::Primitive { name, parameters } => MethodView::Primitive {
                name: name@,
                parameters: parameters.deep_view(),
            },
            Method::Native { name, parameters, locals, body } => MethodView::Native {
                name: name@,
                parameters: parameters.deep_view(),
                locals: locals.deep_view(),
                body: body.deep_view(),
            },
        }
    }
}

impl Method {
    /// The selector under which the method is kept in its class.
    pub open spec fn selector(self) -> Seq<char> {
        match self {
            Method::Primitive { name, .. } => name@,
            Method::Native { name, .. } => name@,
        }
    }
}

impl MethodView {
    /// The selector under which the method is kept in its class.
    pub open spec fn selector(self) -> Seq<char> {
        match self {
            MethodView::Primitive { name, .. } => name,
            MethodView::Native { name, .. } => name,
        }
    }
}

/// The methods of a table as values, each under its selector.
pub open spec fn methods_view(methods: Map<Seq<char>, Method>) -> Map<Seq<char>, MethodView> {
    Map::new(
        |selector: Seq<char>| methods.contains_key(selector),
        |selector: Seq<char>| methods[selector].deep_view(),
    )
}

impl MethodsView {
    /// No methods.
    pub open spec fn empty() -> MethodsView {
        MethodsView {
            selectors: Seq::<Seq<char>>::empty(),
            methods: Map::<Seq<char>, MethodView>::empty(),
        }
    }

    /// The methods with `method` put under its selector: in place of the
    /// method that was there, or as one more, whose selector then comes
    /// last.
    pub open spec fn insert(self, method: MethodView) -> MethodsView {
        MethodsView {
            selectors: if self.methods.contains_key(method.selector()) {
                self.selectors
            } else {
                self.selectors.push(method.selector())
            },
            methods: self.methods.insert(method.selector(), method),
        }
    }
}

impl Methods {
    /// The methods as values.
    pub closed spec fn model(&self) -> MethodsView {
        MethodsView { selectors: self.selectors.deep_view(), methods: methods_view(self.table@) }
    }

    /// The selectors are those under which a method is kept, each once.
    pub closed spec fn wf(&self) -> bool {
        &&& forall|i: int|
            0 <= i < self.selectors@.len() ==> self.table@.contains_key(
                #[trigger] self.selectors@[i]@,
            )
        &&& forall|selector: Seq<char>| #[trigger]
            self.table@.contains_key(selector) ==> exists|i: int|
                0 <= i < self.selectors@.len() && #[trigger] self.selectors@[i]@ == selector
        &&& forall|i: int, j: int|
            0 <= i < j < self.selectors@.len() ==> #[trigger] self.selectors@[i]@
                != #[trigger] self.selectors@[j]@
    }

    /// No methods.
    pub fn new() -> (methods: Methods)
        ensures
            methods.wf(),
            methods.deep_view() == MethodsView::empty(),
    {
        let methods = Methods { table: StringHashMap::new(), selectors: Vec::new() };
        proof {
            assert(methods.selectors.deep_view() =~= Seq::<Seq<char>>::empty());
            assert(methods_view(methods.table@) =~= Map::<Seq<char>, MethodView>::empty());
        }
        methods
    }

    /// How many methods there are.
    pub fn len(&self) -> (length: usize)
        ensures
            length == self.deep_view().selectors.len(),
    {
        self.selectors.len()
    }

    /// Are there no methods?
    pub fn is_empty(&self) -> (empty: bool)
        ensures
            empty == (self.deep_view().selectors.len() == 0),
    {
        self.selectors.len() == 0
    }

    /// The selectors, in the order in which they first came.
    pub fn selectors(&self) -> (selectors: &Vec<String>)
        ensures
            selectors.deep_view() == self.deep_view().selectors,
    {
        &self.selectors
    }

    /// The method with the selector `selector`, if there is one.
    pub fn get(&self, selector: &str) -> (method: Option<&Method>)
        ensures
            match method {
                Some(found) => self.deep_view().methods.contains_key(selector@)
                    && found.deep_view() == self.deep_view().methods[selector@],
                None => !self.deep_view().methods.contains_key(selector@),
            },
    {
        self.table.get(selector)
    }

    /// Puts `method` under its selector, in place of the method that was
    /// there, if one was.
    pub fn insert(&mut self, method: Method)
        requires
            old(self).wf(),
        ensures
            final(self).wf(),
            final(self).deep_view() == old(self).deep_view().insert(method.deep_view()),
    {
        let name = match &method {
            Method::Primitive { name, .. } => name.clone(),
            Method::Native { name, .. } => name.clone(),
        };
        let ghost before = *self;
        if !self.table.contains_key(name.as_str()) {
            self.selectors.push(name.clone());
            proof {
                assert(self.selectors.deep_view() =~= before.selectors.deep_view().push(name@));
            }
        }
        self.table.insert(name, method);
        proof {
            assert(methods_view(self.table@) =~= methods_view(before.table@).insert(
                name@,
                method.deep_view(),
            ));
            assert forall|selector: Seq<char>| #[trigger]
                self.table@.contains_key(selector) implies exists|i: int|
                0 <= i < self.selectors@.len() && #[trigger] self.selectors@[i]@ == selector by {
                if selector == name@ {
                    if before.table@.contains_key(name@) {
                        let i = choose|i: int|
                            0 <= i < before.selectors@.len() && #[trigger] before.selectors@[i]@
                                == name@;
                        assert(self.selectors@[i]@ == selector);
                    } else {
                        assert(self.selectors@[before.selectors@.len() as int]@ == selector);
                    }
                } else {
                    assert(before.table@.contains_key(selector));
                    let i = choose|i: int|
                        0 <= i < before.selectors@.len() && #[trigger] before.selectors@[i]@
                            == selector;
                    assert(self.selectors@[i]@ == selector);
                }
            }
        }
    }
}

impl DeepView for Methods {
    type V = MethodsView;

    open spec fn deep_view(&self) -> MethodsView {
        self.model()
    }
}

impl DeepView for Class {
    type V = ClassView;

    open spec fn deep_view(&self) -> ClassView {
        ClassView {
            name: self.name@,
            superclass: match self.superclass {
                Some(name) => Some(name@),
                None => None,
            },
            instance_methods: self.instance_methods.deep_view(),
            instance_variables: self.instance_variables.deep_view(),
            class_methods: self.class_methods.deep_view(),
            class_variables: self.class_variables.deep_view(),
        }
    }
}

/// A copy of a list of names.
pub fn copy_names(names: &Vec<String>) -> (copy: Vec<String>)
    ensures
        copy.deep_view() == names.deep_view(),
{
    let mut copy: Vec<String> = Vec::new();
    let mut i: usize = 0;
    while i < names.len()
        invariant
            i <= names.len(),
            copy@.len() == i,
            forall|j: int| 0 <= j < i ==> copy@[j]@ == names@[j]@,
        decreases names.len() - i,
    {
        copy.push(names[i].clone());
        i = i + 1;
    }
    assert(copy.deep_view() =~= names.deep_view());
    copy
}

/// A copy of a list of expressions.
pub fn copy_expressions(expressions: &Vec<Expression>) -> (copy: Vec<Expression>)
    ensures
        copy.deep_view() == expressions.deep_view(),
    decreases expressions,
{
    let mut copy: Vec<Expression> = Vec::new();
    let mut i: usize = 0;
    while i < expressions.len()
        invariant
            i <= expressions.len(),
            copy@.len() == i,
            forall|j: int| 0 <= j < i ==> copy@[j].deep_view() == expressions@[j].deep_view(),
        decreases expressions.len() - i,
    {
        copy.push(expressions[i].duplicate());
        i = i + 1;
    }
    assert(copy.deep_view() =~= expressions.deep_view());
    copy
}

impl Expression {
    /// A copy of the expression with all that it holds.
    pub fn duplicate(&self) -> (copy: Expression)
        ensures
            copy.deep_view() == self.deep_view(),
        decreases self,
    {
        let copy = match self {
            Expression::Assignment { variable, value } => Expression::Assignment {
                variable: variable.clone(),
                value: Box::new(value.duplicate()),
            },
            Expression::BinaryMessage { message, left, right } => Expression::BinaryMessage {
                message: message.clone(),
                left: Box::new(left.duplicate()),
                right: Box::new(right.duplicate()),
            },
            Expression::Block { parameters, locals, body } => Expression::Block {
                parameters: copy_names(parameters),
                locals: copy_names(locals),
                body: copy_expressions(body),
            },
            Expression::KeywordMessage { message, receiver, parameters } => {
                Expression::KeywordMessage {
                    message: message.clone(),
                    receiver: Box::new(receiver.duplicate()),
                    parameters: copy_expressions(parameters),
                }
            },
            Expression::LiteralArray(values) => Expression::LiteralArray(copy_expressions(values)),
            Expression::LiteralBoolean(value) => Expression::LiteralBoolean(*value),
            Expression::LiteralDouble { negative, text } => Expression::LiteralDouble {
                negative: *negative,
                text: text.clone(),
            },
            Expression::LiteralInteger(value) => Expression::LiteralInteger(*value),
            Expression::LiteralNil => Expression::LiteralNil,
            Expression::LiteralString(text) => Expression::LiteralString(text.clone()),
            Expression::LiteralSymbol(text) => Expression::LiteralSymbol(text.clone()),
            Expression::Return(value) => Expression::Return(Box::new(value.duplicate())),
            Expression::UnaryMessage { message, receiver } => Expression::UnaryMessage {
                message: message.clone(),
                receiver: Box::new(receiver.duplicate()),
            },
            Expression::Variable(name) => Expression::Variable(name.clone()),
        };
        proof {
            copy.lemma_model_of_list();
            self.lemma_model_of_list();
        }
        copy
    }
}

impl Clone for Expression {
    fn clone(&self) -> (copy: Expression)
        ensures
            copy.deep_view() == self.deep_view(),
    {
        self.duplicate()
    }
}

impl Clone for Method {
    fn clone(&self) -> (copy: Method)
        ensures
            copy.deep_view() == self.deep_view(),
    {
        match self {
            Method::Primitive { name, parameters } => Method::Primitive {
                name: name.clone(),
                parameters: copy_names(parameters),
            },
            Method::Native { name, parameters, locals, body } => Method::Native {
                name: name.clone(),
                parameters: copy_names(parameters),
                locals: copy_names(locals),
                body: copy_expressions(body),
            },
        }
    }
}

} // verus!
